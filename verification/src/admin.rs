//! Admin console: `SHOW POOLS`, `SHOW CLIENTS`, `SHOW STATS` and `SHOW HELP`,
//! answered locally for clients whose startup database is the configured
//! admin database. Such a session leases no upstream connection.

use vstd::prelude::*;
use vstd::string::*;
use vstd::utf8::*;

use crate::intercept;
use crate::pool;
use crate::pool::PoolStatus;
use crate::runtime;
use crate::runtime::SessionInfo;
use crate::session::model;
use crate::session::pump::DownstreamEvent;
use crate::text;
use crate::textmap::TextMap;
use crate::wire;
use crate::wire::{BackendMessage, DataRow, ErrorInfo, FieldDescription, FrontendMessage, TransactionStatus};

verus! {

/// The type id of text columns.
pub const TEXT_OID: u32 = 25;

// ---------------------------------------------------------------------------
// startup
// ---------------------------------------------------------------------------

/// The startup parameters that the console reports.
pub open spec fn console_parameters(version: Seq<char>) -> Map<Seq<char>, Seq<char>> {
    Map::<Seq<char>, Seq<char>>::empty().insert(
        "server_version"@,
        "pgferry-"@ + version,
    ).insert("server_encoding"@, "UTF8"@).insert("client_encoding"@, "UTF8"@).insert(
        "DateStyle"@,
        "ISO, MDY"@,
    ).insert("integer_datetimes"@, "on"@).insert("standard_conforming_strings"@, "on"@).insert(
        "is_superuser"@,
        "on"@,
    )
}

/// The startup parameters that the console of this version reports.
pub fn admin_parameters(version: &str) -> (m: TextMap<String>)
    ensures
        m@.map_values(|s: String| s@) == console_parameters(version@),
{
    let mut shown = "pgferry-".to_owned();
    shown.append(version);
    let mut m: TextMap<String> = TextMap::new();
    m.insert("server_version".to_owned(), shown);
    m.insert("server_encoding".to_owned(), "UTF8".to_owned());
    m.insert("client_encoding".to_owned(), "UTF8".to_owned());
    m.insert("DateStyle".to_owned(), "ISO, MDY".to_owned());
    m.insert("integer_datetimes".to_owned(), "on".to_owned());
    m.insert("standard_conforming_strings".to_owned(), "on".to_owned());
    m.insert("is_superuser".to_owned(), "on".to_owned());
    assert(m@.map_values(|s: String| s@) =~= console_parameters(version@));
    m
}

// ---------------------------------------------------------------------------
// the session
// ---------------------------------------------------------------------------

/// What the console does about something from the client.
pub enum AdminStep {
    /// End the session.
    End,
    /// Send these messages.
    Send(Vec<BackendMessage>),
    /// Answer this query.
    Answer(String),
}

/// The message that ends every answer.
pub open spec fn idle() -> wire::BackendView {
    wire::BackendView::ReadyForQuery { status: TransactionStatus::Idle }
}

/// The error about anything but a simple query.
pub open spec fn only_simple_queries() -> Seq<(u8, Seq<char>)> {
    wire::error_view(
        "ERROR"@,
        "0A000"@,
        "pgferry admin console: only simple queries are supported"@,
    )
}

/// Whether this is what the console does about an event.
pub open spec fn console_does(event: model::DownstreamEventView, step: AdminStep) -> bool {
    match event {
        model::DownstreamEventView::Message(m) => match m {
            wire::FrontendView::Terminate => step is End,
            wire::FrontendView::Sync => step matches AdminStep::Send(out)
                && wire::backend_views(out@) == seq![idle()],
            wire::FrontendView::Query { sql } => step matches AdminStep::Answer(q) && q@ == sql,
            _ => step matches AdminStep::Send(out) && wire::backend_views(out@) == seq![
                wire::BackendView::ErrorResponse { error: only_simple_queries() },
                idle(),
            ],
        },
        _ => step is End,
    }
}

/// Something arrived from the client of the console. A stray `Sync` is
/// answered to stay usable; anything but a simple query is refused.
pub fn on_downstream(event: DownstreamEvent) -> (step: AdminStep)
    ensures
        console_does(event@, step),
{
    match event {
        DownstreamEvent::Message(m) => match m {
            FrontendMessage::Terminate => AdminStep::End,
            FrontendMessage::Query { sql } => AdminStep::Answer(sql),
            FrontendMessage::Sync => {
                let out = vec![BackendMessage::ReadyForQuery { status: TransactionStatus::Idle }];
                assert(wire::backend_views(out@) =~= seq![idle()]);
                AdminStep::Send(out)
            },
            _ => {
                let error = ErrorInfo::new(
                    "ERROR",
                    "0A000",
                    "pgferry admin console: only simple queries are supported",
                );
                let out = vec![
                    BackendMessage::ErrorResponse { error },
                    BackendMessage::ReadyForQuery { status: TransactionStatus::Idle },
                ];
                assert(wire::backend_views(out@) =~= seq![
                    wire::BackendView::ErrorResponse { error: only_simple_queries() },
                    idle(),
                ]);
                AdminStep::Send(out)
            },
        },
        DownstreamEvent::Closed => AdminStep::End,
        DownstreamEvent::Broken => AdminStep::End,
    }
}

// ---------------------------------------------------------------------------
// commands
// ---------------------------------------------------------------------------

/// A command of the console.
pub enum AdminCommand {
    Pools,
    Clients,
    Stats,
    Help,
    /// Any other, in lower case.
    Unknown(String),
}

/// The text of a query that names a command: without surrounding space and
/// trailing semicolons.
pub open spec fn command_text(sql: Seq<char>) -> Seq<char> {
    text::trim(text::trim_end_of(text::trim(sql), ';'))
}

/// Whether a text in lower case names this command.
pub open spec fn names_command(lowered: Seq<char>, r: AdminCommand) -> bool {
    match r {
        AdminCommand::Pools => lowered == "show pools"@,
        AdminCommand::Clients => lowered == "show clients"@,
        AdminCommand::Stats => lowered == "show stats"@,
        AdminCommand::Help => lowered == "show help"@ || lowered == "help"@,
        AdminCommand::Unknown(other) => other@ == lowered && lowered != "show pools"@
            && lowered != "show clients"@ && lowered != "show stats"@ && lowered
            != "show help"@ && lowered != "help"@,
    }
}

/// The command that a text in lower case names.
pub fn command_of(lowered: &str) -> (r: AdminCommand)
    ensures
        names_command(lowered@, r),
{
    if text::same_text(lowered, "show pools") {
        AdminCommand::Pools
    } else if text::same_text(lowered, "show clients") {
        AdminCommand::Clients
    } else if text::same_text(lowered, "show stats") {
        AdminCommand::Stats
    } else if text::same_text(lowered, "show help") || text::same_text(lowered, "help") {
        AdminCommand::Help
    } else {
        AdminCommand::Unknown(lowered.to_owned())
    }
}

/// The command that a query names, in any case.
pub fn parse_command(sql: &str) -> (r: AdminCommand)
    ensures
        names_command(text::lowercase_text(command_text(sql@)), r),
{
    let trimmed = text::trimmed(sql);
    let bare = text::trimmed_end_of(trimmed.as_str(), ';');
    let command = text::trimmed(bare.as_str());
    command_of(text::lowercase(command.as_str()).as_str())
}

/// The error about a command that the console does not have.
pub open spec fn unknown_command(command: Seq<char>) -> Seq<(u8, Seq<char>)> {
    wire::error_view(
        "ERROR"@,
        "42601"@,
        "unknown admin command "@ + text::quoted_text(command)
            + "; supported: SHOW POOLS | SHOW CLIENTS | SHOW STATS | SHOW HELP"@,
    )
}

// ---------------------------------------------------------------------------
// result sets
// ---------------------------------------------------------------------------

/// pgwire's `DataRowEncoder::encode_field` of a text value in a text column,
/// and the row that it leaves: the length of the text in bytes, and the text.
#[verifier::external_body]
fn encode_text_field(value: String) -> (r: Vec<u8>)
    ensures
        r@ == intercept::encode_value(Some(encode_utf8(value@))),
{
    let column = pgwire::api::results::FieldInfo::new(
        String::new(),
        None,
        None,
        pgwire::api::Type::TEXT,
        pgwire::api::results::FieldFormat::Text,
    );
    let mut encoder = pgwire::api::results::DataRowEncoder::new(std::sync::Arc::new(vec![column]));
    encoder.encode_field(&Some(value)).expect("text encoding cannot fail");
    encoder.take_row().data.to_vec()
}

/// The description of a text column.
pub open spec fn text_column(name: Seq<char>) -> wire::FieldView {
    wire::FieldView {
        name,
        table_id: 0,
        column_id: 0,
        type_id: TEXT_OID,
        type_size: (-1) as i16,
        type_modifier: (-1) as i32,
        format_code: 0,
    }
}

/// The values of a row of texts.
pub open spec fn text_values(row: Seq<Seq<char>>) -> Seq<Option<Seq<u8>>> {
    row.map_values(|v: Seq<char>| Some(encode_utf8(v)))
}

/// A row of texts.
pub open spec fn text_row(row: Seq<Seq<char>>) -> wire::BackendView {
    wire::BackendView::DataRow {
        row: wire::RowView {
            field_count: row.len() as int,
            data: intercept::encode_values(text_values(row)),
        },
    }
}

/// A result set of text columns.
pub open spec fn text_result_view(
    columns: Seq<Seq<char>>,
    rows: Seq<Seq<Seq<char>>>,
    tag: Seq<char>,
) -> Seq<wire::BackendView> {
    seq![
        wire::BackendView::RowDescription {
            fields: columns.map_values(|c: Seq<char>| text_column(c)),
        },
    ] + rows.map_values(|r: Seq<Seq<char>>| text_row(r)) + seq![
        wire::BackendView::CommandComplete { tag: tag + " "@ + text::decimal(rows.len()) },
    ]
}

/// The texts of a list of borrowed texts.
pub open spec fn str_views(s: Seq<&str>) -> Seq<Seq<char>> {
    s.map_values(|c: &str| c@)
}

/// The texts of a list of rows.
pub open spec fn row_views(rows: Seq<Vec<String>>) -> Seq<Seq<Seq<char>>> {
    rows.map_values(|r: Vec<String>| text::texts(r@))
}

/// Encode a row of texts.
fn encode_row(row: &Vec<String>) -> (r: DataRow)
    requires
        row.len() <= i16::MAX,
    ensures
        (wire::BackendView::DataRow { row: r@ }) == text_row(text::texts(row@)),
{
    let ghost values = text_values(text::texts(row@));
    let mut data: Vec<u8> = Vec::new();
    let mut i: usize = 0;
    assert(values.take(0) =~= seq![]);
    while i < row.len()
        invariant
            i <= row.len(),
            values == text_values(text::texts(row@)),
            data@ == intercept::encode_values(values.take(i as int)),
        decreases row.len() - i,
    {
        let mut field = encode_text_field(row[i].clone());
        assert(values.take(i + 1).drop_last() =~= values.take(i as int));
        assert(values.take(i + 1).last() == Some(encode_utf8(row@[i as int]@)));
        data.append(&mut field);
        i += 1;
    }
    assert(values.take(row.len() as int) =~= values);
    DataRow { data, field_count: row.len() as i16 }
}

/// A result set of text columns.
pub(crate) fn text_result(columns: &[&str], rows: &Vec<Vec<String>>, tag: &str) -> (r: Vec<
    BackendMessage,
>)
    requires
        forall|i: int| 0 <= i < rows@.len() ==> (#[trigger] rows@[i])@.len() <= i16::MAX,
    ensures
        wire::backend_views(r@) == text_result_view(
            str_views(columns@),
            row_views(rows@),
            tag@,
        ),
{
    let mut fields: Vec<FieldDescription> = Vec::new();
    let mut i: usize = 0;
    let ghost described = str_views(columns@).map_values(|c: Seq<char>| text_column(c));
    while i < columns.len()
        invariant
            i <= columns.len(),
            fields.len() == i,
            described == str_views(columns@).map_values(|c: Seq<char>| text_column(c)),
            forall|j: int| 0 <= j < i ==> (#[trigger] fields@[j])@ == described[j],
        decreases columns.len() - i,
    {
        fields.push(
            FieldDescription {
                name: columns[i].to_owned(),
                table_id: 0,
                column_id: 0,
                type_id: TEXT_OID,
                type_size: -1,
                type_modifier: -1,
                format_code: 0,
            },
        );
        i += 1;
    }
    assert(wire::column_views(fields@) =~= described);
    let mut out: Vec<BackendMessage> = Vec::new();
    out.push(BackendMessage::RowDescription { fields });
    let ghost head = wire::backend_views(out@);
    let mut k: usize = 0;
    let ghost shown = row_views(rows@).map_values(|r: Seq<Seq<char>>| text_row(r));
    while k < rows.len()
        invariant
            k <= rows.len(),
            out.len() == k + 1,
            forall|i: int| 0 <= i < rows@.len() ==> (#[trigger] rows@[i])@.len() <= i16::MAX,
            shown == row_views(rows@).map_values(|r: Seq<Seq<char>>| text_row(r)),
            out@[0]@ == (wire::BackendView::RowDescription { fields: described }),
            forall|j: int| 1 <= j < k + 1 ==> (#[trigger] out@[j])@ == shown[j - 1],
        decreases rows.len() - k,
    {
        let row = encode_row(&rows[k]);
        out.push(BackendMessage::DataRow { row });
        k += 1;
    }
    let mut full = tag.to_owned();
    full.append(" ");
    text::push_decimal(&mut full, rows.len() as u128);
    out.push(BackendMessage::CommandComplete { tag: full });
    assert(wire::backend_views(out@) =~= text_result_view(
        str_views(columns@),
        row_views(rows@),
        tag@,
    ));
    out
}

fn number(n: i128) -> (r: String)
    ensures
        r@ == text::decimal_int(n as int),
{
    text::decimal_int_text(n)
}

fn or_empty(s: &Option<String>) -> (r: String)
    ensures
        r@ == database_name(text::opt_text(*s)),
{
    match s {
        Some(t) => t.clone(),
        None => String::new(),
    }
}

/// The name of a database; empty when there is none.
pub open spec fn database_name(database: Option<Seq<char>>) -> Seq<char> {
    match database {
        Some(name) => name,
        None => Seq::empty(),
    }
}

/// Whether a session uses the pool's user and database.
pub open spec fn belongs(s: runtime::SessionView, key: pool::KeyView) -> bool {
    !s.is_admin && s.user == key.user && s.database == database_name(key.database)
}

/// How many of the sessions use the pool's user and database.
pub open spec fn clients_of(sessions: Seq<runtime::SessionView>, key: pool::KeyView) -> nat
    decreases sessions.len(),
{
    if sessions.len() == 0 {
        0
    } else {
        clients_of(sessions.drop_last(), key) + if belongs(sessions.last(), key) {
            1nat
        } else {
            0nat
        }
    }
}

fn count_clients(sessions: &[SessionInfo], p: &PoolStatus) -> (n: usize)
    ensures
        n == clients_of(runtime::session_views(sessions@), p@.key),
{
    let ghost views = runtime::session_views(sessions@);
    let database = or_empty(&p.key.database);
    let mut n: usize = 0;
    let mut i: usize = 0;
    while i < sessions.len()
        invariant
            i <= sessions.len(),
            n <= i,
            views == runtime::session_views(sessions@),
            database@ == database_name(p@.key.database),
            n == clients_of(views.take(i as int), p@.key),
        decreases sessions.len() - i,
    {
        assert(views.take(i + 1).drop_last() =~= views.take(i as int));
        assert(views.take(i + 1).last() == sessions@[i as int]@);
        if !sessions[i].is_admin && text::same_text(sessions[i].user.as_str(), p.key.user.as_str())
            && text::same_text(sessions[i].database.as_str(), database.as_str()) {
            n += 1;
        }
        i += 1;
    }
    assert(views.take(sessions.len() as int) =~= views);
    n
}

/// The row of a pool in `SHOW POOLS`.
pub open spec fn pool_row(
    p: pool::StatusView,
    sessions: Seq<runtime::SessionView>,
) -> Seq<Seq<char>> {
    seq![
        database_name(p.key.database),
        p.key.user,
        p.key.route,
        text::decimal_int(clients_of(sessions, p.key) as int),
        text::decimal_int(p.metrics.waiting as int),
        text::decimal_int(p.metrics.active as int),
        text::decimal_int(p.idle as int),
        text::decimal_int(p.max_size as int),
    ]
}

/// The columns of `SHOW POOLS`.
pub open spec fn pool_columns() -> Seq<Seq<char>> {
    seq![
        "database"@,
        "user"@,
        "route"@,
        "cl_active"@,
        "cl_waiting"@,
        "sv_active"@,
        "sv_idle"@,
        "max_size"@,
    ]
}

/// `SHOW POOLS`.
pub fn show_pools(pools: &Vec<PoolStatus>, sessions: &[SessionInfo]) -> (r: Vec<BackendMessage>)
    ensures
        wire::backend_views(r@) == text_result_view(
            pool_columns(),
            pool::status_views(pools@).map_values(
                |p: pool::StatusView| pool_row(p, runtime::session_views(sessions@)),
            ),
            "SHOW"@,
        ),
{
    let ghost svs = runtime::session_views(sessions@);
    let ghost want = pool::status_views(pools@).map_values(
        |p: pool::StatusView| pool_row(p, svs),
    );
    let mut rows: Vec<Vec<String>> = Vec::new();
    let mut i: usize = 0;
    while i < pools.len()
        invariant
            i <= pools.len(),
            rows.len() == i,
            svs == runtime::session_views(sessions@),
            want == pool::status_views(pools@).map_values(|p: pool::StatusView| pool_row(p, svs)),
            forall|j: int| 0 <= j < i ==> text::texts((#[trigger] rows@[j])@) == want[j],
        decreases pools.len() - i,
    {
        let p = &pools[i];
        let clients: usize = count_clients(sessions, p);
        let row = vec![
            or_empty(&p.key.database),
            p.key.user.clone(),
            p.key.route.clone(),
            number(clients as i128),
            number(p.metrics.waiting as i128),
            number(p.metrics.active as i128),
            number(p.idle as i128),
            number(p.max_size as i128),
        ];
        assert(text::texts(row@) =~= want[i as int]);
        rows.push(row);
        i += 1;
    }
    assert(row_views(rows@) =~= want);
    assert forall|j: int| 0 <= j < rows@.len() implies (#[trigger] rows@[j])@.len()
        <= i16::MAX by {
        assert(text::texts(rows@[j]@).len() == 8);
    }
    let columns = [
        "database",
        "user",
        "route",
        "cl_active",
        "cl_waiting",
        "sv_active",
        "sv_idle",
        "max_size",
    ];
    assert(str_views(columns@) =~= pool_columns());
    text_result(columns.as_slice(), &rows, "SHOW")
}

/// The row of a session in `SHOW CLIENTS`.
pub open spec fn client_row(
    s: runtime::SessionView,
    connected_for: Seq<char>,
) -> Seq<Seq<char>> {
    seq![
        text::decimal_int(s.pid as int),
        s.addr,
        s.user,
        s.database,
        if s.is_admin {
            "admin"@
        } else {
            "client"@
        },
        if s.attached {
            "attached"@
        } else {
            "idle"@
        },
        connected_for,
    ]
}

/// The columns of `SHOW CLIENTS`.
pub open spec fn client_columns() -> Seq<Seq<char>> {
    seq![
        "pid"@,
        "client"@,
        "user"@,
        "database"@,
        "kind"@,
        "state"@,
        "connected_for"@,
    ]
}

/// `SHOW CLIENTS`. `connected_for` holds, for each session, the text that
/// says how long it has been connected.
pub fn show_clients(sessions: &[SessionInfo], connected_for: &Vec<String>) -> (r: Vec<
    BackendMessage,
>)
    requires
        connected_for.len() == sessions.len(),
    ensures
        wire::backend_views(r@) == text_result_view(
            client_columns(),
            Seq::new(
                sessions@.len(),
                |i: int| client_row(sessions@[i]@, connected_for@[i]@),
            ),
            "SHOW"@,
        ),
{
    let ghost want = Seq::new(
        sessions@.len(),
        |i: int| client_row(sessions@[i]@, connected_for@[i]@),
    );
    let mut rows: Vec<Vec<String>> = Vec::new();
    let mut i: usize = 0;
    while i < sessions.len()
        invariant
            i <= sessions.len(),
            rows.len() == i,
            connected_for.len() == sessions.len(),
            want == Seq::new(
                sessions@.len(),
                |i: int| client_row(sessions@[i]@, connected_for@[i]@),
            ),
            forall|j: int| 0 <= j < i ==> text::texts((#[trigger] rows@[j])@) == want[j],
        decreases sessions.len() - i,
    {
        let s = &sessions[i];
        let kind = if s.is_admin {
            "admin".to_owned()
        } else {
            "client".to_owned()
        };
        let state = if s.attached {
            "attached".to_owned()
        } else {
            "idle".to_owned()
        };
        let row = vec![
            number(s.pid as i128),
            s.addr.clone(),
            s.user.clone(),
            s.database.clone(),
            kind,
            state,
            connected_for[i].clone(),
        ];
        assert(text::texts(row@) =~= want[i as int]);
        rows.push(row);
        i += 1;
    }
    assert(row_views(rows@) =~= want);
    assert forall|j: int| 0 <= j < rows@.len() implies (#[trigger] rows@[j])@.len()
        <= i16::MAX by {
        assert(text::texts(rows@[j]@).len() == 7);
    }
    let columns = ["pid", "client", "user", "database", "kind", "state", "connected_for"];
    assert(str_views(columns@) =~= client_columns());
    text_result(columns.as_slice(), &rows, "SHOW")
}

/// The row of a pool in `SHOW STATS`.
pub open spec fn stats_row(p: pool::StatusView) -> Seq<Seq<char>> {
    seq![
        database_name(p.key.database),
        p.key.user,
        text::decimal_int(p.metrics.checkouts as int),
        text::decimal_int(p.metrics.reused as int),
        text::decimal_int(p.metrics.created as int),
        text::decimal_int(p.metrics.checked_in as int),
        text::decimal_int(p.metrics.dropped as int),
        text::decimal_int(p.metrics.evicted as int),
        text::decimal_int(p.metrics.probed as int),
    ]
}

/// The columns of `SHOW STATS`.
pub open spec fn stats_columns() -> Seq<Seq<char>> {
    seq![
        "database"@,
        "user"@,
        "checkouts"@,
        "reused"@,
        "created"@,
        "checked_in"@,
        "dropped"@,
        "evicted"@,
        "probed"@,
    ]
}

/// `SHOW STATS`.
pub fn show_stats(pools: &Vec<PoolStatus>) -> (r: Vec<BackendMessage>)
    ensures
        wire::backend_views(r@) == text_result_view(
            stats_columns(),
            pool::status_views(pools@).map_values(|p: pool::StatusView| stats_row(p)),
            "SHOW"@,
        ),
{
    let ghost want = pool::status_views(pools@).map_values(|p: pool::StatusView| stats_row(p));
    let mut rows: Vec<Vec<String>> = Vec::new();
    let mut i: usize = 0;
    while i < pools.len()
        invariant
            i <= pools.len(),
            rows.len() == i,
            want == pool::status_views(pools@).map_values(|p: pool::StatusView| stats_row(p)),
            forall|j: int| 0 <= j < i ==> text::texts((#[trigger] rows@[j])@) == want[j],
        decreases pools.len() - i,
    {
        let p = &pools[i];
        let row = vec![
            or_empty(&p.key.database),
            p.key.user.clone(),
            number(p.metrics.checkouts as i128),
            number(p.metrics.reused as i128),
            number(p.metrics.created as i128),
            number(p.metrics.checked_in as i128),
            number(p.metrics.dropped as i128),
            number(p.metrics.evicted as i128),
            number(p.metrics.probed as i128),
        ];
        assert(text::texts(row@) =~= want[i as int]);
        rows.push(row);
        i += 1;
    }
    assert(row_views(rows@) =~= want);
    assert forall|j: int| 0 <= j < rows@.len() implies (#[trigger] rows@[j])@.len()
        <= i16::MAX by {
        assert(text::texts(rows@[j]@).len() == 9);
    }
    let columns = [
        "database",
        "user",
        "checkouts",
        "reused",
        "created",
        "checked_in",
        "dropped",
        "evicted",
        "probed",
    ];
    assert(str_views(columns@) =~= stats_columns());
    text_result(columns.as_slice(), &rows, "SHOW")
}

/// The rows of `SHOW HELP`.
pub open spec fn help_rows() -> Seq<Seq<Seq<char>>> {
    seq![
        seq!["SHOW POOLS"@],
        seq!["SHOW CLIENTS"@],
        seq!["SHOW STATS"@],
        seq!["SHOW HELP"@],
    ]
}

/// `SHOW HELP`.
pub fn show_help() -> (r: Vec<BackendMessage>)
    ensures
        wire::backend_views(r@) == text_result_view(seq!["command"@], help_rows(), "SHOW"@),
{
    let pools = vec!["SHOW POOLS".to_owned()];
    let clients = vec!["SHOW CLIENTS".to_owned()];
    let stats = vec!["SHOW STATS".to_owned()];
    let help = vec!["SHOW HELP".to_owned()];
    assert(text::texts(pools@) =~= seq!["SHOW POOLS"@]);
    assert(text::texts(clients@) =~= seq!["SHOW CLIENTS"@]);
    assert(text::texts(stats@) =~= seq!["SHOW STATS"@]);
    assert(text::texts(help@) =~= seq!["SHOW HELP"@]);
    let rows = vec![pools, clients, stats, help];
    assert(row_views(rows@) =~= help_rows());
    let columns = ["command"];
    assert(str_views(columns@) =~= seq!["command"@]);
    text_result(columns.as_slice(), &rows, "SHOW")
}

/// What the console shows: the pools, the sessions, and how long each session
/// has been connected.
pub struct AdminSnapshot<'a> {
    pub pools: &'a Vec<PoolStatus>,
    pub sessions: &'a [SessionInfo],
    pub connected_for: &'a Vec<String>,
}

/// The answer to a command, with these pools, these sessions, and for each
/// session how long it has been connected.
pub open spec fn answered(
    command: AdminCommand,
    pools: Seq<pool::StatusView>,
    sessions: Seq<runtime::SessionView>,
    connected_for: Seq<Seq<char>>,
) -> Seq<wire::BackendView> {
    (match command {
        AdminCommand::Pools => text_result_view(
            pool_columns(),
            pools.map_values(|p: pool::StatusView| pool_row(p, sessions)),
            "SHOW"@,
        ),
        AdminCommand::Clients => text_result_view(
            client_columns(),
            Seq::new(sessions.len(), |i: int| client_row(sessions[i], connected_for[i])),
            "SHOW"@,
        ),
        AdminCommand::Stats => text_result_view(
            stats_columns(),
            pools.map_values(|p: pool::StatusView| stats_row(p)),
            "SHOW"@,
        ),
        AdminCommand::Help => text_result_view(seq!["command"@], help_rows(), "SHOW"@),
        AdminCommand::Unknown(other) => seq![
            wire::BackendView::ErrorResponse { error: unknown_command(other@) },
        ],
    }).push(idle())
}

/// The answer to a command, up to and including `ReadyForQuery`.
pub fn dispatch(command: AdminCommand, shown: &AdminSnapshot<'_>) -> (r: Vec<BackendMessage>)
    requires
        shown.connected_for.len() == shown.sessions.len(),
    ensures
        wire::backend_views(r@) == answered(
            command,
            pool::status_views(shown.pools@),
            runtime::session_views(shown.sessions@),
            text::texts(shown.connected_for@),
        ),
{
    let ghost sessions = runtime::session_views(shown.sessions@);
    let ghost connected_for = text::texts(shown.connected_for@);
    assert(Seq::new(
        shown.sessions@.len(),
        |i: int| client_row(shown.sessions@[i]@, shown.connected_for@[i]@),
    ) =~= Seq::new(sessions.len(), |i: int| client_row(sessions[i], connected_for[i])));
    let mut out = match command {
        AdminCommand::Pools => show_pools(shown.pools, shown.sessions),
        AdminCommand::Clients => show_clients(shown.sessions, shown.connected_for),
        AdminCommand::Stats => show_stats(shown.pools),
        AdminCommand::Help => show_help(),
        AdminCommand::Unknown(other) => {
            let mut message = "unknown admin command ".to_owned();
            message.append(text::quoted(other.as_str()).as_str());
            message.append("; supported: SHOW POOLS | SHOW CLIENTS | SHOW STATS | SHOW HELP");
            let error = ErrorInfo::new("ERROR", "42601", message.as_str());
            let list = vec![BackendMessage::ErrorResponse { error }];
            assert(wire::backend_views(list@) =~= seq![
                wire::BackendView::ErrorResponse { error: unknown_command(other@) },
            ]);
            list
        },
    };
    let ghost before = out@;
    out.push(BackendMessage::ReadyForQuery { status: TransactionStatus::Idle });
    assert(wire::backend_views(out@) =~= wire::backend_views(before).push(idle()));
    out
}

// ---------------------------------------------------------------------------
// laws
// ---------------------------------------------------------------------------

/// A row of the console reads back as exactly its texts: as many values as
/// texts, none of them null, each the encoding of its text.
pub proof fn law_text_row_round_trip(row: Seq<Seq<char>>)
    requires
        forall|i: int| 0 <= i < row.len() ==> encode_utf8(#[trigger] row[i]).len() <= i32::MAX,
    ensures
        intercept::decode_values(text_row(row)->row.data, row.len()) == Some(text_values(row)),
        forall|i: int|
            0 <= i < row.len() ==> decode_utf8((#[trigger] text_values(row)[i])->0) == row[i],
{
    let values = text_values(row);
    assert forall|i: int| 0 <= i < values.len() implies (#[trigger] values[i] matches Some(b)
        ==> b.len() <= i32::MAX) by {
        assert(encode_utf8(row[i]).len() <= i32::MAX);
    }
    intercept::law_row_round_trip(values, seq![]);
    assert forall|i: int| 0 <= i < row.len() implies decode_utf8(
        (#[trigger] text_values(row)[i])->0,
    ) == row[i] by {
        encode_utf8_decode_utf8(row[i]);
    }
}

/// Every result set has one description, then one row per item, then the
/// command tag that counts them.
pub proof fn law_text_result_shape(
    columns: Seq<Seq<char>>,
    rows: Seq<Seq<Seq<char>>>,
    tag: Seq<char>,
)
    ensures
        ({
            let out = text_result_view(columns, rows, tag);
            &&& out.len() == rows.len() + 2
            &&& out.first() is RowDescription
            &&& forall|i: int| 0 <= i < rows.len() ==> #[trigger] out[i + 1] == text_row(rows[i])
            &&& out.last() == (wire::BackendView::CommandComplete {
                tag: tag + " "@ + text::decimal(rows.len()),
            })
        }),
{
}

proof fn lemma_clients_of(sessions: Seq<runtime::SessionView>, key: pool::KeyView)
    ensures
        clients_of(sessions, key) == sessions.filter(
            |s: runtime::SessionView|
                !s.is_admin && s.user == key.user && s.database == (match key.database {
                    Some(name) => name,
                    None => Seq::empty(),
                }),
        ).len(),
    decreases sessions.len(),
{
    reveal(Seq::filter);
    if sessions.len() > 0 {
        lemma_clients_of(sessions.drop_last(), key);
    }
}

/// What `SHOW POOLS` says of a pool: under each column's name the number that
/// the name stands for. The active clients are the sessions of the pool's user
/// on its database, the console's own left out.
pub proof fn law_show_pools(p: pool::StatusView, sessions: Seq<runtime::SessionView>)
    requires
        sessions.len() <= usize::MAX,
        p.idle <= usize::MAX,
        p.max_size <= usize::MAX,
    ensures
        ({
            let row = pool_row(p, sessions);
            let columns = pool_columns();
            let clients = sessions.filter(
                |s: runtime::SessionView|
                    !s.is_admin && s.user == p.key.user && s.database == (match p.key.database {
                        Some(name) => name,
                        None => Seq::empty(),
                    }),
            ).len();
            &&& row.len() == columns.len() == 8
            &&& columns[0] == "database"@ && row[0] == (match p.key.database {
                Some(name) => name,
                None => Seq::empty(),
            })
            &&& columns[1] == "user"@ && row[1] == p.key.user
            &&& columns[2] == "route"@ && row[2] == p.key.route
            &&& columns[3] == "cl_active"@ && text::parse_int(row[3]) == Some(clients as int)
            &&& columns[4] == "cl_waiting"@ && text::parse_int(row[4]) == Some(
                p.metrics.waiting as int,
            )
            &&& columns[5] == "sv_active"@ && text::parse_int(row[5]) == Some(
                p.metrics.active as int,
            )
            &&& columns[6] == "sv_idle"@ && text::parse_int(row[6]) == Some(p.idle as int)
            &&& columns[7] == "max_size"@ && text::parse_int(row[7]) == Some(p.max_size as int)
        }),
{
    lemma_clients_of(sessions, p.key);
    lemma_clients_bound(sessions, p.key);
    text::law_integer_round_trip(clients_of(sessions, p.key) as int);
    text::law_integer_round_trip(p.metrics.waiting as int);
    text::law_integer_round_trip(p.metrics.active as int);
    text::law_integer_round_trip(p.idle as int);
    text::law_integer_round_trip(p.max_size as int);
}

proof fn lemma_clients_bound(sessions: Seq<runtime::SessionView>, key: pool::KeyView)
    ensures
        clients_of(sessions, key) <= sessions.len(),
    decreases sessions.len(),
{
    if sessions.len() > 0 {
        lemma_clients_bound(sessions.drop_last(), key);
    }
}

/// What `SHOW STATS` says of a pool: under each column's name its counter.
pub proof fn law_show_stats(p: pool::StatusView)
    ensures
        ({
            let row = stats_row(p);
            let columns = stats_columns();
            &&& row.len() == columns.len() == 9
            &&& columns[0] == "database"@ && row[0] == (match p.key.database {
                Some(name) => name,
                None => Seq::empty(),
            })
            &&& columns[1] == "user"@ && row[1] == p.key.user
            &&& columns[2] == "checkouts"@ && text::parse_int(row[2]) == Some(
                p.metrics.checkouts as int,
            )
            &&& columns[3] == "reused"@ && text::parse_int(row[3]) == Some(p.metrics.reused as int)
            &&& columns[4] == "created"@ && text::parse_int(row[4]) == Some(
                p.metrics.created as int,
            )
            &&& columns[5] == "checked_in"@ && text::parse_int(row[5]) == Some(
                p.metrics.checked_in as int,
            )
            &&& columns[6] == "dropped"@ && text::parse_int(row[6]) == Some(
                p.metrics.dropped as int,
            )
            &&& columns[7] == "evicted"@ && text::parse_int(row[7]) == Some(
                p.metrics.evicted as int,
            )
            &&& columns[8] == "probed"@ && text::parse_int(row[8]) == Some(p.metrics.probed as int)
        }),
{
    text::law_integer_round_trip(p.metrics.checkouts as int);
    text::law_integer_round_trip(p.metrics.reused as int);
    text::law_integer_round_trip(p.metrics.created as int);
    text::law_integer_round_trip(p.metrics.checked_in as int);
    text::law_integer_round_trip(p.metrics.dropped as int);
    text::law_integer_round_trip(p.metrics.evicted as int);
    text::law_integer_round_trip(p.metrics.probed as int);
}

/// What `SHOW CLIENTS` says of a session: who it is, whether it is one of the
/// console, and whether it has a connection right now.
pub proof fn law_show_clients(s: runtime::SessionView, connected_for: Seq<char>)
    ensures
        ({
            let row = client_row(s, connected_for);
            let columns = client_columns();
            &&& row.len() == columns.len() == 7
            &&& columns[0] == "pid"@ && text::parse_int(row[0]) == Some(s.pid as int)
            &&& columns[1] == "client"@ && row[1] == s.addr
            &&& columns[2] == "user"@ && row[2] == s.user
            &&& columns[3] == "database"@ && row[3] == s.database
            &&& columns[4] == "kind"@
            &&& row[4] == "admin"@ <==> s.is_admin
            &&& row[4] == "client"@ <==> !s.is_admin
            &&& columns[5] == "state"@
            &&& row[5] == "attached"@ <==> s.attached
            &&& row[5] == "idle"@ <==> !s.attached
            &&& columns[6] == "connected_for"@ && row[6] == connected_for
        }),
{
    text::law_integer_round_trip(s.pid as int);
    reveal_strlit("admin");
    reveal_strlit("client");
    reveal_strlit("attached");
    reveal_strlit("idle");
    assert("admin"@.len() != "client"@.len());
    assert("attached"@.len() != "idle"@.len());
}

/// Every answer of the console ends with the session idle. A list has a row for
/// every pool or session, in their order and nothing else, with a count of
/// them; a command that the console does not have is refused by its name.
pub proof fn law_console_answers(
    pools: Seq<pool::StatusView>,
    sessions: Seq<runtime::SessionView>,
    connected_for: Seq<Seq<char>>,
    command: AdminCommand,
    other: String,
)
    ensures
        answered(command, pools, sessions, connected_for).last()
            == (wire::BackendView::ReadyForQuery { status: TransactionStatus::Idle }),
        ({
            let out = answered(AdminCommand::Pools, pools, sessions, connected_for);
            &&& out.len() == pools.len() + 3
            &&& forall|i: int|
                0 <= i < pools.len() ==> #[trigger] out[i + 1] == text_row(
                    pool_row(pools[i], sessions),
                )
            &&& out[out.len() - 2] == (wire::BackendView::CommandComplete {
                tag: "SHOW"@ + " "@ + text::decimal(pools.len()),
            })
        }),
        ({
            let out = answered(AdminCommand::Stats, pools, sessions, connected_for);
            &&& out.len() == pools.len() + 3
            &&& forall|i: int|
                0 <= i < pools.len() ==> #[trigger] out[i + 1] == text_row(stats_row(pools[i]))
            &&& out[out.len() - 2] == (wire::BackendView::CommandComplete {
                tag: "SHOW"@ + " "@ + text::decimal(pools.len()),
            })
        }),
        ({
            let out = answered(AdminCommand::Clients, pools, sessions, connected_for);
            &&& out.len() == sessions.len() + 3
            &&& forall|i: int|
                0 <= i < sessions.len() ==> #[trigger] out[i + 1] == text_row(
                    client_row(sessions[i], connected_for[i]),
                )
            &&& out[out.len() - 2] == (wire::BackendView::CommandComplete {
                tag: "SHOW"@ + " "@ + text::decimal(sessions.len()),
            })
        }),
        ({
            let out = answered(AdminCommand::Help, pools, sessions, connected_for);
            &&& out.len() == 7
            &&& out[1] == text_row(seq!["SHOW POOLS"@])
            &&& out[2] == text_row(seq!["SHOW CLIENTS"@])
            &&& out[3] == text_row(seq!["SHOW STATS"@])
            &&& out[4] == text_row(seq!["SHOW HELP"@])
        }),
        ({
            let out = answered(AdminCommand::Unknown(other), pools, sessions, connected_for);
            &&& out.len() == 2
            &&& out[0] matches wire::BackendView::ErrorResponse { error }
            &&& wire::field_value(error, 0x53) == "ERROR"@
            &&& wire::field_value(error, 0x43) == "42601"@
            &&& wire::field_value(error, 0x4d) == "unknown admin command "@ + text::quoted_text(
                other@,
            ) + "; supported: SHOW POOLS | SHOW CLIENTS | SHOW STATS | SHOW HELP"@
        }),
{
    wire::law_error_fields(
        "ERROR"@,
        "42601"@,
        "unknown admin command "@ + text::quoted_text(other@)
            + "; supported: SHOW POOLS | SHOW CLIENTS | SHOW STATS | SHOW HELP"@,
    );
}

/// The columns of a result set are texts, each under its name.
pub proof fn law_text_columns(
    columns: Seq<Seq<char>>,
    rows: Seq<Seq<Seq<char>>>,
    tag: Seq<char>,
    i: int,
)
    requires
        0 <= i < columns.len(),
    ensures
        ({
            let out = text_result_view(columns, rows, tag);
            &&& out[0] matches wire::BackendView::RowDescription { fields }
            &&& fields.len() == columns.len()
            &&& fields[i].name == columns[i]
            &&& fields[i].type_id == 25
            &&& fields[i].format_code == 0
            &&& fields[i].type_size == -1
        }),
{
}

/// A command is read without the white space and the semicolons around it, and
/// without white space in front of the semicolons.
pub proof fn law_command_text(
    left: Seq<char>,
    command: Seq<char>,
    gap: Seq<char>,
    semicolons: Seq<char>,
    right: Seq<char>,
)
    requires
        text::all_white(left),
        text::all_white(gap),
        text::all_white(right),
        forall|i: int| 0 <= i < semicolons.len() ==> #[trigger] semicolons[i] == ';',
        command.len() > 0,
        !text::is_white_space(command[0]),
        !text::is_white_space(command.last()),
        command.last() != ';',
    ensures
        command_text(left + command + gap + semicolons + right) == command,
{
    let whole = left + command + gap + semicolons + right;
    let nothing = Seq::<char>::empty();
    if semicolons.len() > 0 {
        let start = command + gap;
        let inner = start + semicolons;
        assert(whole =~= left + inner + right);
        assert(inner[0] == command[0]);
        assert(inner.last() == semicolons[semicolons.len() - 1]);
        text::law_trim(left, inner, right);
        if gap.len() > 0 {
            assert(start.last() == gap[gap.len() - 1]);
        } else {
            assert(start =~= command);
        }
        lemma_semicolons(start, semicolons);
        assert(nothing + command + gap =~= start);
        text::law_trim(nothing, command, gap);
    } else {
        let end = gap + right;
        assert forall|i: int| 0 <= i < end.len() implies text::is_white_space(#[trigger] end[i]) by {
            if i < gap.len() {
                assert(end[i] == gap[i]);
            } else {
                assert(end[i] == right[i - gap.len()]);
            }
        }
        assert(whole =~= left + command + end);
        text::law_trim(left, command, end);
        lemma_semicolons(command, nothing);
        assert(command + nothing =~= command);
        assert(nothing + command + nothing =~= command);
        text::law_trim(nothing, command, nothing);
    }
}

proof fn lemma_semicolons(command: Seq<char>, semicolons: Seq<char>)
    requires
        forall|i: int| 0 <= i < semicolons.len() ==> #[trigger] semicolons[i] == ';',
        command.len() > 0,
        command.last() != ';',
    ensures
        text::trim_end_of(command + semicolons, ';') == command,
    decreases semicolons.len(),
{
    if semicolons.len() == 0 {
        assert(command + semicolons =~= command);
    } else {
        assert((command + semicolons).last() == semicolons[semicolons.len() - 1]);
        assert((command + semicolons).drop_last() =~= command + semicolons.drop_last());
        lemma_semicolons(command, semicolons.drop_last());
    }
}

/// The parameters that the console reports at startup.
pub proof fn law_console_parameters(version: Seq<char>)
    ensures
        ({
            let p = console_parameters(version);
            &&& p["server_version"@] == "pgferry-"@ + version
            &&& p["server_encoding"@] == "UTF8"@
            &&& p["client_encoding"@] == "UTF8"@
            &&& p["integer_datetimes"@] == "on"@
            &&& p["standard_conforming_strings"@] == "on"@
        }),
        wire::field_value(only_simple_queries(), 0x43) == "0A000"@,
        wire::field_value(only_simple_queries(), 0x53) == "ERROR"@,
{
    wire::law_error_fields(
        "ERROR"@,
        "0A000"@,
        "pgferry admin console: only simple queries are supported"@,
    );
    reveal_strlit("server_version");
    reveal_strlit("server_encoding");
    reveal_strlit("client_encoding");
    reveal_strlit("DateStyle");
    reveal_strlit("integer_datetimes");
    reveal_strlit("standard_conforming_strings");
    reveal_strlit("is_superuser");
    assert("server_encoding"@[0] != "client_encoding"@[0]);
    assert("server_version"@.len() == 14 && "server_encoding"@.len() == 15);
    assert("client_encoding"@.len() == 15 && "DateStyle"@.len() == 9);
    assert("integer_datetimes"@.len() == 17 && "standard_conforming_strings"@.len() == 27);
    assert("is_superuser"@.len() == 12);
}

/// The console answers simple queries and nothing else: it ends with the client,
/// answers a `Sync` with `ReadyForQuery` alone, and refuses everything else
/// with one error, and stays usable.
pub proof fn law_console_events(event: model::DownstreamEventView, step: AdminStep)
    requires
        console_does(event, step),
    ensures
        step is End <==> !(event is Message) || (event matches model::DownstreamEventView::Message(m)
            && m is Terminate),
        event matches model::DownstreamEventView::Message(m) ==> {
            &&& m is Query <==> step is Answer
            &&& m matches wire::FrontendView::Query { sql } ==> step->Answer_0@ == sql
            &&& m is Sync ==> wire::backend_views(step->Send_0@) == seq![
                wire::BackendView::ReadyForQuery { status: TransactionStatus::Idle },
            ]
        },
        step matches AdminStep::Send(out) ==> out@.len() > 0 && out@.last()@
            == (wire::BackendView::ReadyForQuery { status: TransactionStatus::Idle }),
        step is Send && !(event->Message_0 is Sync) ==> step->Send_0@.len() == 2
            && step->Send_0@[0]@ == (wire::BackendView::ErrorResponse {
            error: only_simple_queries(),
        }),
{
    match step {
        AdminStep::Send(out) => {
            let views = wire::backend_views(out@);
            assert(views.len() == out@.len());
            assert(views.last() == out@.last()@);
            assert(views[0] == out@[0]@);
        },
        _ => {},
    }
}

/// The commands of the console, by their words.
pub proof fn law_commands(lowered: Seq<char>, r: AdminCommand)
    requires
        names_command(lowered, r),
    ensures
        lowered == "show pools"@ ==> r is Pools,
        lowered == "show clients"@ ==> r is Clients,
        lowered == "show stats"@ ==> r is Stats,
        lowered == "show help"@ || lowered == "help"@ ==> r is Help,
        lowered != "show pools"@ && lowered != "show clients"@ && lowered != "show stats"@
            && lowered != "show help"@ && lowered != "help"@ ==> r is Unknown && r->Unknown_0@
            == lowered,
{
    reveal_strlit("show pools");
    reveal_strlit("show clients");
    reveal_strlit("show stats");
    reveal_strlit("show help");
    reveal_strlit("help");
    assert("show pools"@.len() == 10 && "show clients"@.len() == 12);
    assert("show stats"@.len() == 10 && "show help"@.len() == 9 && "help"@.len() == 4);
    assert("show pools"@[5] != "show stats"@[5]);
}

} // verus!
