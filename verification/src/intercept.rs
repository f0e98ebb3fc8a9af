//! The values that interceptor hooks see and return.
//!
//! Hook phases, in the order a query cycle flows through them:
//!
//! ```text
//! frontend Query/Parse --> on_query      (validate / deny / rewrite / respond)
//!                      --> on_frontend   (raw message)
//! upstream messages    --> on_backend    (raw message)
//!   DataRow            --> on_row        (value-level rewrite, schema-aware)
//! ReadyForQuery        --> on_cycle_end  (telemetry: tag, rows, latency, error)
//! ```

use vstd::prelude::*;
use vstd::string::*;
use vstd::utf8::*;

use crate::config;
use crate::config::EndpointConfig;
use crate::scatter;
use crate::scatter::ScatterRequest;
use crate::text;
use crate::time::Nanos;
use crate::wire;
use crate::wire::{BackendMessage, DataRow, ErrorInfo, FieldDescription};

pub mod builtin;

verus! {

/// An error snapshot attached to a [`CycleReport`].
#[derive(Debug, Clone)]
pub struct CycleError {
    /// SQLSTATE error code, e.g. `42501`.
    pub code: String,
    pub message: String,
}

/// The view of an error snapshot.
#[verifier::ext_equal]
pub struct CycleErrorView {
    pub code: Seq<char>,
    pub message: Seq<char>,
}

impl View for CycleError {
    type V = CycleErrorView;

    open spec fn view(&self) -> CycleErrorView {
        CycleErrorView { code: self.code@, message: self.message@ }
    }
}

/// The snapshot of an error: its code and its message.
pub open spec fn cycle_error_of(error: Seq<(u8, Seq<char>)>) -> CycleErrorView {
    CycleErrorView {
        code: wire::field_value(error, 0x43),
        message: wire::field_value(error, 0x4d),
    }
}

impl CycleError {
    /// The snapshot of `info`.
    pub fn from_info(info: &ErrorInfo) -> (e: CycleError)
        ensures
            e@ == cycle_error_of(info@),
    {
        CycleError { code: info.code(), message: info.message() }
    }

    /// The `ErrorResponse` message this error would be sent as.
    pub fn to_error_response(&self) -> (m: BackendMessage)
        ensures
            m@ == (wire::BackendView::ErrorResponse {
                error: wire::error_view("ERROR"@, self.code@, self.message@),
            }),
    {
        let error = ErrorInfo::new("ERROR", self.code.as_str(), self.message.as_str());
        BackendMessage::ErrorResponse { error }
    }

    /// A copy.
    pub fn copy(&self) -> (r: CycleError)
        ensures
            r == *self,
    {
        CycleError { code: self.code.clone(), message: self.message.clone() }
    }
}

/// Sending an error snapshot and taking a snapshot of what was sent gives the
/// same snapshot.
pub proof fn law_cycle_error_round_trip(e: CycleErrorView)
    ensures
        cycle_error_of(wire::error_view("ERROR"@, e.code, e.message)) == e,
{
    wire::law_error_fields("ERROR"@, e.code, e.message);
}

/// What to do with a message or a query cycle. Returned by every hook.
#[derive(Debug)]
pub enum Action {
    /// Forward, possibly changed.
    Forward,
    /// Send these messages downstream instead. For query-level hooks this
    /// answers the cycle locally: the messages are sent followed by
    /// `ReadyForQuery`, and the upstream is not involved at all.
    Reply(Vec<BackendMessage>),
    /// Deny the query: send an error downstream and recover. Only honored
    /// from the query-level hook.
    Deny(ErrorInfo),
    /// Run the request's legs on their endpoints and answer the cycle with
    /// the merged result. Only honored from the query-level hook, on
    /// simple-protocol cycles outside explicit transactions.
    Scatter(ScatterRequest),
    /// Close the session.
    Close,
}

/// The view of an action.
#[verifier::ext_equal]
pub enum ActionView {
    Forward,
    Reply(Seq<wire::BackendView>),
    Deny(Seq<(u8, Seq<char>)>),
    Scatter(scatter::RequestView),
    Close,
}

impl View for Action {
    type V = ActionView;

    open spec fn view(&self) -> ActionView {
        match self {
            Action::Forward => ActionView::Forward,
            Action::Reply(messages) => ActionView::Reply(wire::backend_views(messages@)),
            Action::Deny(info) => ActionView::Deny(info@),
            Action::Scatter(request) => ActionView::Scatter(request@),
            Action::Close => ActionView::Close,
        }
    }
}

/// What to do with a row.
#[derive(Debug, Clone, Copy, PartialEq, Eq, Structural)]
pub enum RowAction {
    /// Keep the row (possibly modified through [`DataRowMut`]).
    Keep,
    /// Drop the row from the result set.
    Drop,
}

/// What to do after an upstream error.
#[derive(Debug, Clone, Copy, PartialEq, Eq, Structural)]
pub enum RetryDecision {
    /// Re-enter routing and re-attach. The interrupted query, if any, is
    /// answered with a synthesized `08006` error: queries are never replayed
    /// automatically.
    Relink,
    /// End the session.
    Close,
}

/// Context for a routing decision: the route's endpoints, the session
/// identity, and the SQL of the cycle being routed when known.
pub struct RoutingInfo<'a> {
    pub endpoints: &'a [EndpointConfig],
    pub user: &'a str,
    pub database: Option<&'a str>,
    pub sql: Option<&'a str>,
}

impl<'a> RoutingInfo<'a> {
    /// The route's endpoints.
    pub open spec fn spec_endpoints(&self) -> Seq<EndpointConfig> {
        self.endpoints@
    }

    /// The ids of the route's endpoints.
    pub open spec fn ids(&self) -> Seq<Seq<char>> {
        config::endpoint_ids(self.spec_endpoints())
    }

    /// The default endpoint: the first one, or empty text without endpoints.
    pub open spec fn spec_default(&self) -> Seq<char> {
        if self.ids().len() > 0 {
            self.ids()[0]
        } else {
            Seq::empty()
        }
    }

    pub fn new(
        endpoints: &'a [EndpointConfig],
        user: &'a str,
        database: Option<&'a str>,
        sql: Option<&'a str>,
    ) -> (r: Self)
        ensures
            r.spec_endpoints() == endpoints@,
            r.user@ == user@,
            r.database == database,
            r.sql == sql,
    {
        RoutingInfo { endpoints, user, database, sql }
    }

    /// The route's endpoints, in configured order (first = default).
    pub fn endpoints(&self) -> (r: &'a [EndpointConfig])
        ensures
            r@ == self.spec_endpoints(),
    {
        self.endpoints
    }

    /// Look up an endpoint by id.
    pub fn endpoint(&self, id: &str) -> (r: Option<&'a EndpointConfig>)
        ensures
            match r {
                Some(e) => {
                    &&& text::first_index(self.ids(), id@) matches Some(i)
                    &&& 0 <= i < self.spec_endpoints().len()
                    &&& *e == self.spec_endpoints()[i]
                    &&& e.id@ == id@
                },
                None => text::first_index(self.ids(), id@) is None,
            },
    {
        proof {
            text::law_first_index(self.ids(), id@);
        }
        match config::endpoint_position(self.endpoints, id) {
            Some(i) => Some(&self.endpoints[i]),
            None => None,
        }
    }

    /// The default (first configured) endpoint id.
    pub fn default_endpoint(&self) -> (r: &str)
        ensures
            r@ == self.spec_default(),
    {
        if self.endpoints.len() > 0 {
            self.endpoints[0].id.as_str()
        } else {
            proof {
                reveal_strlit("");
            }
            assert(""@ =~= Seq::<char>::empty());
            ""
        }
    }

    /// SQL of the cycle being routed, when known.
    pub fn sql(&self) -> (r: Option<&str>)
        ensures
            r == self.sql,
    {
        self.sql
    }
}

/// An upstream failure reported to the error policy.
#[derive(Debug, Clone)]
pub enum UpstreamError {
    /// Connecting (or probing a pooled connection to) the endpoint failed.
    Connect { endpoint: String, message: String },
    /// An established connection to the endpoint broke mid-lease.
    ConnectionLost { endpoint: String, message: String },
}

/// The view of an upstream failure.
#[verifier::ext_equal]
pub enum UpstreamErrorView {
    Connect { endpoint: Seq<char>, message: Seq<char> },
    ConnectionLost { endpoint: Seq<char>, message: Seq<char> },
}

impl View for UpstreamError {
    type V = UpstreamErrorView;

    open spec fn view(&self) -> UpstreamErrorView {
        match self {
            UpstreamError::Connect { endpoint, message } => UpstreamErrorView::Connect {
                endpoint: endpoint@,
                message: message@,
            },
            UpstreamError::ConnectionLost { endpoint, message } => UpstreamErrorView::ConnectionLost {
                endpoint: endpoint@,
                message: message@,
            },
        }
    }
}

impl UpstreamError {
    /// The endpoint the failure relates to.
    pub open spec fn spec_endpoint(&self) -> Seq<char> {
        match self {
            UpstreamError::Connect { endpoint, .. } => endpoint@,
            UpstreamError::ConnectionLost { endpoint, .. } => endpoint@,
        }
    }

    /// The endpoint the failure relates to.
    pub fn endpoint(&self) -> (r: &str)
        ensures
            r@ == self.spec_endpoint(),
    {
        match self {
            UpstreamError::Connect { endpoint, .. } => endpoint.as_str(),
            UpstreamError::ConnectionLost { endpoint, .. } => endpoint.as_str(),
        }
    }
}

/// Which protocol flavor started a query cycle.
#[derive(Debug, Clone, PartialEq, Eq)]
pub enum CycleKind {
    /// Simple protocol `Query` message.
    Simple,
    /// Extended protocol `Parse` message.
    Extended {
        /// Statement name; `None` for the unnamed statement.
        statement: Option<String>,
    },
}

/// The view of a cycle kind.
#[verifier::ext_equal]
pub enum KindView {
    Simple,
    Extended { statement: Option<Seq<char>> },
}

impl View for CycleKind {
    type V = KindView;

    open spec fn view(&self) -> KindView {
        match self {
            CycleKind::Simple => KindView::Simple,
            CycleKind::Extended { statement } => KindView::Extended {
                statement: text::opt_text(*statement),
            },
        }
    }
}

impl CycleKind {
    /// A copy.
    pub fn copy(&self) -> (r: CycleKind)
        ensures
            r == *self,
    {
        match self {
            CycleKind::Simple => CycleKind::Simple,
            CycleKind::Extended { statement } => CycleKind::Extended {
                statement: text::copy_opt(statement),
            },
        }
    }

    /// Whether the cycle is an extended-protocol one.
    pub fn is_extended(&self) -> (r: bool)
        ensures
            r == (self@ is Extended),
    {
        match self {
            CycleKind::Simple => false,
            CycleKind::Extended { .. } => true,
        }
    }
}

/// A query cycle starting: what the query-level hook sees and can rewrite.
#[derive(Debug)]
pub struct QueryCycle {
    sql: String,
    kind: CycleKind,
    rewritten: bool,
}

/// The view of a starting query cycle.
#[verifier::ext_equal]
pub struct QueryView {
    pub sql: Seq<char>,
    pub kind: KindView,
    pub rewritten: bool,
}

impl View for QueryCycle {
    type V = QueryView;

    open spec fn view(&self) -> QueryView {
        QueryView {
            sql: self.spec_sql(),
            kind: self.spec_kind(),
            rewritten: self.spec_rewritten(),
        }
    }
}

impl QueryView {
    /// The rewritten SQL, where there is one.
    pub open spec fn replacement(self) -> Option<Seq<char>> {
        if self.rewritten {
            Some(self.sql)
        } else {
            None
        }
    }
}

impl QueryCycle {
    /// The SQL text of the cycle.
    pub closed spec fn spec_sql(&self) -> Seq<char> {
        self.sql@
    }

    /// The protocol flavor.
    pub closed spec fn spec_kind(&self) -> KindView {
        self.kind@
    }

    /// Whether the SQL was rewritten since the cycle started.
    pub closed spec fn spec_rewritten(&self) -> bool {
        self.rewritten
    }

    pub fn new(sql: String, kind: CycleKind) -> (r: Self)
        ensures
            r.spec_sql() == sql@,
            r.spec_kind() == kind@,
            !r.spec_rewritten(),
    {
        QueryCycle { sql, kind, rewritten: false }
    }

    /// The SQL text of the cycle.
    pub fn sql(&self) -> (r: &str)
        ensures
            r@ == self.spec_sql(),
    {
        self.sql.as_str()
    }

    /// Rewrite the SQL; the forwarded message carries the new text.
    pub fn set_sql(&mut self, sql: String)
        ensures
            final(self).spec_sql() == sql@,
            final(self).spec_kind() == old(self).spec_kind(),
            final(self).spec_rewritten(),
    {
        self.sql = sql;
        self.rewritten = true;
    }

    /// The protocol flavor.
    pub fn kind(&self) -> (r: CycleKind)
        ensures
            r@ == self.spec_kind(),
    {
        self.kind.copy()
    }

    /// The rewritten SQL, once: afterwards the cycle counts as not rewritten
    /// and its text is empty.
    pub fn take_rewritten(&mut self) -> (r: Option<String>)
        ensures
            final(self).spec_kind() == old(self).spec_kind(),
            !final(self).spec_rewritten(),
            old(self).spec_rewritten() ==> {
                &&& text::opt_text(r) == Some(old(self).spec_sql())
                &&& final(self).spec_sql() == Seq::<char>::empty()
            },
            !old(self).spec_rewritten() ==> r is None && final(self).spec_sql() == old(
                self,
            ).spec_sql(),
    {
        if self.rewritten {
            self.rewritten = false;
            let mut sql = String::new();
            std::mem::swap(&mut sql, &mut self.sql);
            Some(sql)
        } else {
            None
        }
    }
}

/// Telemetry for a finished query cycle.
#[derive(Debug, Clone)]
pub struct CycleReport {
    /// SQL text of the cycle (post-rewrite).
    pub sql: Option<String>,
    pub kind: CycleKind,
    /// The last `CommandComplete` tag of the cycle, e.g. `"SELECT 5"`.
    pub tag: Option<String>,
    /// Rows sent downstream.
    pub rows: u64,
    /// Rows dropped by the row hook (when row interception is active).
    pub rows_dropped: u64,
    /// Error, if the cycle ended in `ErrorResponse` (including injected
    /// denials).
    pub error: Option<CycleError>,
    /// Cycle duration (cycle start to `ReadyForQuery` sent downstream).
    pub latency: Nanos,
}

/// The view of an optional error snapshot.
pub open spec fn opt_error(e: Option<CycleError>) -> Option<CycleErrorView> {
    match e {
        Some(e) => Some(e@),
        None => None,
    }
}

/// The view of a cycle report.
#[verifier::ext_equal]
pub struct ReportView {
    pub sql: Option<Seq<char>>,
    pub kind: KindView,
    pub tag: Option<Seq<char>>,
    pub rows: u64,
    pub rows_dropped: u64,
    pub error: Option<CycleErrorView>,
    pub latency: Nanos,
}

impl View for CycleReport {
    type V = ReportView;

    open spec fn view(&self) -> ReportView {
        ReportView {
            sql: text::opt_text(self.sql),
            kind: self.kind@,
            tag: text::opt_text(self.tag),
            rows: self.rows,
            rows_dropped: self.rows_dropped,
            error: opt_error(self.error),
            latency: self.latency,
        }
    }
}

impl CycleReport {
    /// A copy.
    pub fn copy(&self) -> (r: CycleReport)
        ensures
            r == *self,
    {
        CycleReport {
            sql: text::copy_opt(&self.sql),
            kind: self.kind.copy(),
            tag: text::copy_opt(&self.tag),
            rows: self.rows,
            rows_dropped: self.rows_dropped,
            error: match &self.error {
                Some(e) => Some(e.copy()),
                None => None,
            },
            latency: self.latency,
        }
    }
}

/// Column metadata from the session's current `RowDescription`.
#[derive(Debug, Clone)]
pub struct ColumnMeta {
    pub name: String,
    pub type_oid: u32,
    /// Wire format: `0` text, `1` binary.
    pub format: i16,
}

/// The view of a column's metadata.
#[verifier::ext_equal]
pub struct ColumnView {
    pub name: Seq<char>,
    pub type_oid: u32,
    pub format: i16,
}

impl View for ColumnMeta {
    type V = ColumnView;

    open spec fn view(&self) -> ColumnView {
        ColumnView { name: self.name@, type_oid: self.type_oid, format: self.format }
    }
}

impl ColumnMeta {
    /// Whether the column is in text format.
    pub fn is_text(&self) -> (r: bool)
        ensures
            r == (self.format == 0),
    {
        self.format == 0
    }
}

/// The result-set schema in effect for a row.
#[derive(Debug, Clone)]
pub struct RowSchema {
    pub columns: Vec<ColumnMeta>,
}

impl View for RowSchema {
    type V = Seq<ColumnView>;

    open spec fn view(&self) -> Seq<ColumnView> {
        self.columns@.map_values(|c: ColumnMeta| c@)
    }
}

/// The metadata of the described columns.
pub open spec fn schema_of(fields: Seq<wire::FieldView>) -> Seq<ColumnView> {
    fields.map_values(
        |f: wire::FieldView|
            ColumnView { name: f.name, type_oid: f.type_id, format: f.format_code },
    )
}

/// The names of a schema's columns.
pub open spec fn column_names(schema: Seq<ColumnView>) -> Seq<Seq<char>> {
    schema.map_values(|c: ColumnView| c.name)
}

impl Default for RowSchema {
    fn default() -> (r: Self)
        ensures
            r@ == Seq::<ColumnView>::empty(),
    {
        let r = RowSchema { columns: Vec::new() };
        assert(r@ =~= Seq::<ColumnView>::empty());
        r
    }
}

impl RowSchema {
    /// The schema that a `RowDescription` announces.
    pub fn from_row_description(fields: &Vec<FieldDescription>) -> (r: RowSchema)
        ensures
            r@ == schema_of(wire::column_views(fields@)),
    {
        let mut columns: Vec<ColumnMeta> = Vec::new();
        let mut i: usize = 0;
        while i < fields.len()
            invariant
                i <= fields.len(),
                columns.len() == i,
                forall|j: int|
                    0 <= j < i ==> (#[trigger] columns@[j])@ == schema_of(
                        wire::column_views(fields@),
                    )[j],
            decreases fields.len() - i,
        {
            columns.push(
                ColumnMeta {
                    name: fields[i].name.clone(),
                    type_oid: fields[i].type_id,
                    format: fields[i].format_code,
                },
            );
            i += 1;
        }
        let r = RowSchema { columns };
        assert(r@ =~= schema_of(wire::column_views(fields@)));
        r
    }

    /// The position of the first column with this name.
    pub fn column_index(&self, name: &str) -> (r: Option<usize>)
        ensures
            match r {
                Some(i) => text::first_index(column_names(self@), name@) == Some(i as int),
                None => text::first_index(column_names(self@), name@) is None,
            },
            r matches Some(i) ==> i < self@.len(),
    {
        let ghost names = column_names(self@);
        let mut i: usize = 0;
        while i < self.columns.len()
            invariant
                i <= self.columns.len(),
                names == column_names(self@),
                text::first_index(names.take(i as int), name@) is None,
            decreases self.columns.len() - i,
        {
            assert(names.take(i + 1).drop_last() == names.take(i as int));
            if text::same_text(self.columns[i].name.as_str(), name) {
                proof {
                    config::lemma_first_index_extends(names, name@, i + 1);
                }
                return Some(i);
            }
            i += 1;
        }
        assert(names.take(self.columns.len() as int) == names);
        None
    }

    /// The number of columns.
    pub fn len(&self) -> (r: usize)
        ensures
            r == self@.len(),
    {
        self.columns.len()
    }

    /// Whether there are no columns.
    pub fn is_empty(&self) -> (r: bool)
        ensures
            r == (self@.len() == 0),
    {
        self.columns.len() == 0
    }
}

// ---------------------------------------------------------------------------
// rows
// ---------------------------------------------------------------------------

/// Errors from value-level row mutation.
#[derive(Debug, Clone, Copy, PartialEq, Eq, Structural)]
pub enum RowError {
    /// The index, and how many columns there are.
    OutOfRange(usize, usize),
    /// The index of a column whose bytes are not text.
    BinaryColumn(usize),
    /// The index of a column that is null.
    Null(usize),
}

impl RowError {
    /// The text shown for the error.
    pub open spec fn spec_message(self) -> Seq<char> {
        match self {
            RowError::OutOfRange(i, n) => "column index "@ + text::decimal(i as nat)
                + " out of range (schema has "@ + text::decimal(n as nat) + " columns)"@,
            RowError::BinaryColumn(i) => "column "@ + text::decimal(i as nat)
                + " is in binary format; text mutation is not supported"@,
            RowError::Null(i) => "column "@ + text::decimal(i as nat) + " is null"@,
        }
    }

    /// The text shown for the error.
    pub fn message(self) -> (r: String)
        ensures
            r@ == self.spec_message(),
    {
        match self {
            RowError::OutOfRange(i, n) => {
                let mut r = "column index ".to_owned();
                text::push_decimal(&mut r, i as u128);
                r.append(" out of range (schema has ");
                text::push_decimal(&mut r, n as u128);
                r.append(" columns)");
                r
            },
            RowError::BinaryColumn(i) => {
                let mut r = "column ".to_owned();
                text::push_decimal(&mut r, i as u128);
                r.append(" is in binary format; text mutation is not supported");
                r
            },
            RowError::Null(i) => {
                let mut r = "column ".to_owned();
                text::push_decimal(&mut r, i as u128);
                r.append(" is null");
                r
            },
        }
    }
}

/// The encoding of one value: its length and its bytes, or -1 for null.
pub open spec fn encode_value(value: Option<Seq<u8>>) -> Seq<u8> {
    match value {
        Some(bytes) => wire::be_i32(bytes.len() as int) + bytes,
        None => wire::be_i32(-1),
    }
}

/// The encoding of a row's values, one after the other.
pub open spec fn encode_values(values: Seq<Option<Seq<u8>>>) -> Seq<u8>
    decreases values.len(),
{
    if values.len() == 0 {
        seq![]
    } else {
        encode_values(values.drop_last()) + encode_value(values.last())
    }
}

/// The `n` values that `data` encodes; `None` when it does not hold exactly
/// `n` of them.
pub open spec fn decode_values(data: Seq<u8>, n: nat) -> Option<Seq<Option<Seq<u8>>>>
    decreases n,
{
    if n == 0 {
        if data.len() == 0 {
            Some(seq![])
        } else {
            None
        }
    } else if data.len() < 4 {
        None
    } else {
        let len = wire::i32_at(data);
        let size = if len < 0 {
            4
        } else {
            4 + len
        };
        let value = if len < 0 {
            None
        } else {
            Some(data.subrange(4, 4 + len))
        };
        if data.len() < size {
            None
        } else {
            match decode_values(data.skip(size), (n - 1) as nat) {
                Some(rest) => Some(seq![value] + rest),
                None => None,
            }
        }
    }
}

/// Whether every value's length can be written in the row format.
pub open spec fn values_fit(values: Seq<Option<Seq<u8>>>) -> bool {
    forall|i: int|
        0 <= i < values.len() ==> (#[trigger] values[i] matches Some(b) ==> b.len() <= i32::MAX)
}

/// A value slot in a parsed row: either a range into the original message
/// bytes, or a rewritten value.
#[derive(Debug)]
enum ValueSlot {
    Range { offset: usize, len: usize },
    Owned(Vec<u8>),
}

/// A decoded, mutable row.
///
/// Values are kept as ranges into the raw message bytes; the message is
/// rebuilt by [`DataRowMut::apply`] only when a value was rewritten. Message
/// lengths are recomputed then, so framing cannot be corrupted by editing
/// values.
#[derive(Debug)]
pub struct DataRowMut {
    row: DataRow,
    values: Vec<Option<ValueSlot>>,
    modified: bool,
}

/// The bytes in a slot.
closed spec fn slot_value(data: Seq<u8>, slot: Option<ValueSlot>) -> Option<Seq<u8>> {
    match slot {
        None => None,
        Some(ValueSlot::Range { offset, len }) => Some(
            data.subrange(offset as int, offset + len),
        ),
        Some(ValueSlot::Owned(bytes)) => Some(bytes@),
    }
}

/// The bytes in every slot.
closed spec fn slot_values(data: Seq<u8>, slots: Seq<Option<ValueSlot>>) -> Seq<Option<Seq<u8>>> {
    slots.map_values(|s: Option<ValueSlot>| slot_value(data, s))
}

/// Whether the ranges among the slots lie within the data.
closed spec fn slots_in_range(data: Seq<u8>, slots: Seq<Option<ValueSlot>>) -> bool {
    forall|i: int|
        0 <= i < slots.len() ==> (#[trigger] slots[i] matches Some(ValueSlot::Range { offset, len })
            ==> offset + len <= data.len())
}

proof fn lemma_decode_step(data: Seq<u8>, k: int, n: nat)
    requires
        0 <= k <= data.len(),
        n > 0,
    ensures
        ({
            let rest = data.skip(k);
            let d = decode_values(rest, n);
            if rest.len() < 4 {
                d is None
            } else {
                let len = wire::i32_at(rest);
                if len < 0 {
                    match decode_values(data.skip(k + 4), (n - 1) as nat) {
                        Some(r) => d == Some(seq![None::<Seq<u8>>] + r),
                        None => d is None,
                    }
                } else if rest.len() < 4 + len {
                    d is None
                } else {
                    match decode_values(data.skip(k + 4 + len), (n - 1) as nat) {
                        Some(r) => d == Some(
                            seq![Some(data.subrange(k + 4, k + 4 + len))] + r,
                        ),
                        None => d is None,
                    }
                }
            }
        }),
{
    let rest = data.skip(k);
    if rest.len() >= 4 {
        let len = wire::i32_at(rest);
        if len < 0 {
            assert(rest.skip(4) == data.skip(k + 4));
        } else if rest.len() >= 4 + len {
            assert(rest.skip(4 + len) == data.skip(k + 4 + len));
            assert(rest.subrange(4, 4 + len) == data.subrange(k + 4, k + 4 + len));
        }
    }
}

/// The view of a row being edited: the row as it was parsed, its values as
/// edited so far, and whether any value was edited.
#[verifier::ext_equal]
pub struct RowEditView {
    pub row: wire::RowView,
    pub values: Seq<Option<Seq<u8>>>,
    pub modified: bool,
}

impl RowEditView {
    /// The row with this value put at a position; a position that it does not
    /// have changes nothing.
    pub open spec fn with_value(self, index: int, value: Option<Seq<u8>>) -> RowEditView {
        if index < self.values.len() {
            RowEditView { values: self.values.update(index, value), modified: true, ..self }
        } else {
            self
        }
    }

    /// The row with its edits.
    pub open spec fn applied(self) -> wire::RowView {
        if self.modified {
            wire::RowView {
                field_count: self.row.field_count,
                data: encode_values(self.values),
            }
        } else {
            self.row
        }
    }
}

impl View for DataRowMut {
    type V = RowEditView;

    open spec fn view(&self) -> RowEditView {
        RowEditView {
            row: self.spec_row(),
            values: self.spec_values(),
            modified: self.spec_modified(),
        }
    }
}

impl DataRowMut {
    #[verifier::type_invariant]
    spec fn inv(&self) -> bool {
        slots_in_range(self.row.data@, self.values@)
    }

    /// The values of the row, as edited so far.
    pub closed spec fn spec_values(&self) -> Seq<Option<Seq<u8>>> {
        slot_values(self.row.data@, self.values@)
    }

    /// The row as it was parsed.
    pub closed spec fn spec_row(&self) -> wire::RowView {
        self.row@
    }

    /// Whether any value was edited.
    pub closed spec fn spec_modified(&self) -> bool {
        self.modified
    }

    /// Parse the row's raw bytes. Fails if the data does not match the field
    /// count: it must hold exactly that many values and nothing after them.
    pub fn parse(row: DataRow) -> (r: Result<DataRowMut, (DataRow, RowError)>)
        requires
            row.field_count >= 0,
        ensures
            match r {
                Ok(m) => {
                    &&& decode_values(row.data@, row.field_count as nat) == Some(m.spec_values())
                    &&& m.spec_row() == row@
                    &&& !m.spec_modified()
                },
                Err((back, e)) => {
                    &&& decode_values(row.data@, row.field_count as nat) is None
                    &&& back == row
                    &&& e == RowError::OutOfRange(usize::MAX, row.field_count as usize)
                },
            },
    {
        let n: usize = row.field_count as usize;
        let size: usize = row.data.len();
        let mut values: Vec<Option<ValueSlot>> = Vec::new();
        let mut offset: usize = 0;
        let mut i: usize = 0;
        let ghost data = row.data@;
        assert(data.skip(0) == data);
        assert(slot_values(data, values@) =~= seq![]);
        while i < n
            invariant
                i <= n,
                n == row.field_count,
                data == row.data@,
                size == data.len(),
                offset <= size,
                values.len() == i,
                slots_in_range(data, values@),
                match decode_values(data.skip(offset as int), (n - i) as nat) {
                    Some(rest) => decode_values(data, n as nat) == Some(
                        slot_values(data, values@) + rest,
                    ),
                    None => decode_values(data, n as nat) is None,
                },
            decreases n - i,
        {
            proof {
                lemma_decode_step(data, offset as int, (n - i) as nat);
            }
            if size - offset < 4 {
                return Err((row, RowError::OutOfRange(usize::MAX, n)));
            }
            let len: i32 = wire::get_i32(&row.data, offset);
            let ghost before = values@;
            if len < 0 {
                values.push(None);
                offset += 4;
                assert(slot_values(data, values@) =~= slot_values(data, before).push(None));
            } else {
                let len: usize = len as usize;
                if size - offset - 4 < len {
                    return Err((row, RowError::OutOfRange(usize::MAX, n)));
                }
                values.push(Some(ValueSlot::Range { offset: offset + 4, len }));
                assert(slot_values(data, values@) =~= slot_values(data, before).push(
                    Some(data.subrange(offset + 4, offset + 4 + len)),
                ));
                offset += 4 + len;
            }
            proof {
                match decode_values(data.skip(offset as int), (n - i - 1) as nat) {
                    Some(rest) => {
                        let v = slot_values(data, values@).last();
                        assert(slot_values(data, before) + (seq![v] + rest) =~= slot_values(
                            data,
                            values@,
                        ) + rest);
                    },
                    None => {},
                }
            }
            i += 1;
        }
        if offset != size {
            return Err((row, RowError::OutOfRange(usize::MAX, n)));
        }
        proof {
            assert(slot_values(data, values@) + seq![] =~= slot_values(data, values@));
        }
        Ok(DataRowMut { row, values, modified: false })
    }

    /// The number of values.
    pub fn len(&self) -> (r: usize)
        ensures
            r == self.spec_values().len(),
    {
        self.values.len()
    }

    /// Whether there are no values.
    pub fn is_empty(&self) -> (r: bool)
        ensures
            r == (self.spec_values().len() == 0),
    {
        self.values.len() == 0
    }

    /// Whether a value is null.
    pub fn is_null(&self, index: usize) -> (r: Result<bool, RowError>)
        ensures
            r == (if index < self.spec_values().len() {
                Ok::<bool, RowError>(self.spec_values()[index as int] is None)
            } else {
                Err(RowError::OutOfRange(index, self.spec_values().len() as usize))
            }),
    {
        if index >= self.values.len() {
            return Err(RowError::OutOfRange(index, self.values.len()));
        }
        assert(self.spec_values()[index as int] == slot_value(
            self.row.data@,
            self.values@[index as int],
        ));
        Ok(self.values[index].is_none())
    }

    /// A column's value as UTF-8 text.
    pub fn text(&self, index: usize) -> (r: Result<Option<&str>, RowError>)
        ensures
            match r {
                Ok(None) => index < self.spec_values().len() && self.spec_values()[index as int]
                    is None,
                Ok(Some(s)) => {
                    &&& index < self.spec_values().len()
                    &&& self.spec_values()[index as int] == Some(s.spec_bytes())
                },
                Err(RowError::OutOfRange(i, n)) => {
                    &&& index >= self.spec_values().len()
                    &&& i == index
                    &&& n == self.spec_values().len()
                },
                Err(RowError::BinaryColumn(i)) => {
                    &&& index < self.spec_values().len()
                    &&& i == index
                    &&& self.spec_values()[index as int] matches Some(b)
                    &&& !valid_utf8(b)
                },
                Err(RowError::Null(_)) => false,
            },
    {
        proof {
            use_type_invariant(self);
        }
        if index >= self.values.len() {
            return Err(RowError::OutOfRange(index, self.values.len()));
        }
        assert(self.spec_values()[index as int] == slot_value(
            self.row.data@,
            self.values@[index as int],
        ));
        match &self.values[index] {
            None => Ok(None),
            Some(ValueSlot::Owned(bytes)) => {
                proof {
                    if valid_utf8(bytes@) {
                        decode_utf8_encode_utf8(bytes@);
                    }
                }
                match text::utf8_text(bytes.as_slice()) {
                    Some(s) => Ok(Some(s)),
                    None => Err(RowError::BinaryColumn(index)),
                }
            },
            Some(ValueSlot::Range { offset, len }) => {
                assert(self.values@[index as int] == Some(
                    ValueSlot::Range { offset: *offset, len: *len },
                ));
                assert(*offset + *len <= self.row.data.len());
                let bytes = vstd::slice::slice_subrange(
                    self.row.data.as_slice(),
                    *offset,
                    *offset + *len,
                );
                proof {
                    if valid_utf8(bytes@) {
                        decode_utf8_encode_utf8(bytes@);
                    }
                }
                match text::utf8_text(bytes) {
                    Some(s) => Ok(Some(s)),
                    None => Err(RowError::BinaryColumn(index)),
                }
            },
        }
    }

    /// Put `slot` at `index`.
    fn put(&mut self, index: usize, slot: Option<ValueSlot>)
        requires
            index < old(self).spec_values().len(),
            slot matches Some(s) ==> s is Owned,
        ensures
            final(self).spec_values() == old(self).spec_values().update(
                index as int,
                slot_value(Seq::empty(), slot),
            ),
            final(self).spec_row() == old(self).spec_row(),
            final(self).spec_modified(),
    {
        proof {
            use_type_invariant(&*self);
        }
        let ghost before = self.values@;
        let ghost data = self.row.data@;
        let mut values: Vec<Option<ValueSlot>> = Vec::new();
        std::mem::swap(&mut values, &mut self.values);
        values.set(index, slot);
        self.values = values;
        self.modified = true;
        assert(self.spec_values() =~= slot_values(data, before).update(
            index as int,
            slot_value(Seq::empty(), slot),
        ));
    }

    /// Overwrite a text column's value.
    pub fn set_text(&mut self, index: usize, value: &str) -> (r: Result<(), RowError>)
        ensures
            final(self)@ == old(self)@.with_value(index as int, Some(value.spec_bytes())),
            final(self).spec_row() == old(self).spec_row(),
            index < old(self).spec_values().len() ==> {
                &&& r is Ok
                &&& final(self).spec_values() == old(self).spec_values().update(
                    index as int,
                    Some(value.spec_bytes()),
                )
                &&& final(self).spec_modified()
            },
            index >= old(self).spec_values().len() ==> {
                &&& r == Err::<(), RowError>(
                    RowError::OutOfRange(index, old(self).spec_values().len() as usize),
                )
                &&& *final(self) == *old(self)
            },
    {
        if index >= self.values.len() {
            return Err(RowError::OutOfRange(index, self.values.len()));
        }
        self.put(index, Some(ValueSlot::Owned(value.as_bytes_vec())));
        Ok(())
    }

    /// Set a column to NULL.
    pub fn set_null(&mut self, index: usize) -> (r: Result<(), RowError>)
        ensures
            final(self)@ == old(self)@.with_value(index as int, None),
            final(self).spec_row() == old(self).spec_row(),
            index < old(self).spec_values().len() ==> {
                &&& r is Ok
                &&& final(self).spec_values() == old(self).spec_values().update(index as int, None)
                &&& final(self).spec_modified()
            },
            index >= old(self).spec_values().len() ==> {
                &&& r == Err::<(), RowError>(
                    RowError::OutOfRange(index, old(self).spec_values().len() as usize),
                )
                &&& *final(self) == *old(self)
            },
    {
        if index >= self.values.len() {
            return Err(RowError::OutOfRange(index, self.values.len()));
        }
        self.put(index, None);
        Ok(())
    }

    /// Whether any mutation happened (re-encoding is skipped otherwise).
    pub fn is_modified(&self) -> (r: bool)
        ensures
            r == self.spec_modified(),
    {
        self.modified
    }

    /// The row with its edits. A row that was not edited comes back byte for
    /// byte; an edited one is encoded anew from its values.
    pub fn apply(self) -> (row: DataRow)
        ensures
            row@ == self@.applied(),
    {
        proof {
            use_type_invariant(&self);
        }
        if !self.modified {
            return self.row;
        }
        let mut data: Vec<u8> = Vec::new();
        let ghost values = self.spec_values();
        let mut i: usize = 0;
        while i < self.values.len()
            invariant
                i <= self.values.len(),
                values == self.spec_values(),
                slots_in_range(self.row.data@, self.values@),
                data@ == encode_values(values.take(i as int)),
            decreases self.values.len() - i,
        {
            let ghost before = data@;
            proof {
                assert(values.take(i + 1).drop_last() == values.take(i as int));
                assert(values.take(i + 1).last() == slot_value(
                    self.row.data@,
                    self.values@[i as int],
                ));
            }
            match &self.values[i] {
                Some(ValueSlot::Range { offset, len }) => {
                    put_len(&mut data, *len);
                    wire::put_bytes(&mut data, self.row.data.as_slice(), *offset, *len);
                    assert(data@ =~= before + (wire::be_i32(*len as int)
                        + self.row.data@.subrange(*offset as int, *offset + *len)));
                },
                Some(ValueSlot::Owned(bytes)) => {
                    put_len(&mut data, bytes.len());
                    wire::put_bytes(&mut data, bytes.as_slice(), 0, bytes.len());
                    assert(bytes@.subrange(0, bytes.len() as int) == bytes@);
                    assert(data@ =~= before + (wire::be_i32(bytes.len() as int) + bytes@));
                },
                None => {
                    wire::put_i32(&mut data, -1);
                },
            }
            i += 1;
        }
        assert(values.take(values.len() as int) == values);
        DataRow { data, field_count: self.row.field_count }
    }
}

/// Append a length as a 32-bit integer, most significant byte first.
pub(crate) fn put_len(data: &mut Vec<u8>, len: usize)
    ensures
        final(data)@ == old(data)@ + wire::be_i32(len as int),
{
    let ghost before = data@;
    data.push(((len / 0x100_0000) % 256) as u8);
    data.push(((len / 0x1_0000) % 256) as u8);
    data.push(((len / 0x100) % 256) as u8);
    data.push((len % 256) as u8);
    assert(data@ =~= before + wire::be_i32(len as int));
}

// ---------------------------------------------------------------------------
// laws of the row format
// ---------------------------------------------------------------------------

/// The encoding of a list of values, front first.
proof fn lemma_encode_front(values: Seq<Option<Seq<u8>>>)
    requires
        values.len() > 0,
    ensures
        encode_values(values) == encode_value(values[0]) + encode_values(values.skip(1)),
    decreases values.len(),
{
    if values.len() == 1 {
        assert(values.drop_last() =~= seq![]);
        assert(values.skip(1) =~= seq![]);
        assert(encode_values(values) =~= encode_value(values[0]) + encode_values(values.skip(1)));
    } else {
        lemma_encode_front(values.drop_last());
        assert(values.drop_last().skip(1) =~= values.skip(1).drop_last());
        assert(values.skip(1).last() == values.last());
        assert(encode_values(values) =~= encode_value(values[0]) + encode_values(values.skip(1)));
    }
}

/// Decoding an encoded row gives back exactly its values; with anything after
/// them, the row is refused.
pub proof fn law_row_round_trip(values: Seq<Option<Seq<u8>>>, tail: Seq<u8>)
    requires
        values_fit(values),
    ensures
        decode_values(encode_values(values), values.len()) == Some(values),
        tail.len() > 0 ==> decode_values(encode_values(values) + tail, values.len()) is None,
{
    lemma_decode_encoded(values, seq![]);
    lemma_decode_encoded(values, tail);
    assert(encode_values(values) + seq![] =~= encode_values(values));
}

/// What an encoded row followed by `tail` decodes to.
proof fn lemma_decode_encoded(values: Seq<Option<Seq<u8>>>, tail: Seq<u8>)
    requires
        values_fit(values),
    ensures
        decode_values(encode_values(values) + tail, values.len()) == (if tail.len() == 0 {
            Some(values)
        } else {
            None
        }),
    decreases values.len(),
{
    if values.len() == 0 {
        assert(values =~= seq![]);
        assert(encode_values(values) + tail =~= tail);
    } else {
        lemma_encode_front(values);
        let rest = encode_values(values.skip(1)) + tail;
        let data = encode_values(values) + tail;
        assert forall|i: int| 0 <= i < values.skip(1).len() implies (#[trigger] values.skip(
            1,
        )[i] matches Some(b) ==> b.len() <= i32::MAX) by {
            assert(values.skip(1)[i] == values[i + 1]);
        }
        lemma_decode_encoded(values.skip(1), tail);
        match values[0] {
            None => {
                assert(data =~= wire::be_i32(-1) + rest);
                wire::law_i32_round_trip(-1, rest);
                assert(data.skip(4) =~= rest);
            },
            Some(b) => {
                assert(data =~= wire::be_i32(b.len() as int) + (b + rest));
                wire::law_i32_round_trip(b.len() as int, b + rest);
                assert(data.skip(4 + b.len() as int) =~= rest);
                assert(data.subrange(4, 4 + b.len() as int) =~= b);
            },
        }
        assert(seq![values[0]] + values.skip(1) =~= values);
    }
}

/// The number of decoded values is the number asked for.
pub proof fn law_decode_len(data: Seq<u8>, n: nat)
    ensures
        decode_values(data, n) matches Some(v) ==> v.len() == n,
    decreases n,
{
    if n > 0 && data.len() >= 4 {
        let len = wire::i32_at(data);
        let size = if len < 0 {
            4
        } else {
            4 + len
        };
        if data.len() >= size {
            law_decode_len(data.skip(size), (n - 1) as nat);
        }
    }
}

/// Editing values never corrupts framing: the row that comes out of an edited
/// row parses again, and to exactly the values as edited.
pub proof fn law_edits_keep_framing(m: RowEditView)
    requires
        m.modified,
        values_fit(m.values),
        m.row.field_count == m.values.len(),
    ensures
        decode_values(m.applied().data, m.applied().field_count as nat) == Some(m.values),
{
    law_row_round_trip(m.values, seq![]);
}

/// A row that no hook edited goes out byte for byte as it came in.
pub proof fn law_unedited_row_unchanged(m: RowEditView)
    requires
        !m.modified,
    ensures
        m.applied() == m.row,
{
}

/// An interceptor with no behavior of its own.
#[derive(Debug, Clone, Copy, PartialEq, Eq, Structural)]
pub struct NoopInterceptor;

/// Putting a value into a row changes that value alone: what comes out of the
/// row reads back with the new value in its place and every other as it was.
pub proof fn law_edit_one_value(m: RowEditView, i: int, value: Option<Seq<u8>>, other: int)
    requires
        values_fit(m.values),
        m.row.field_count == m.values.len(),
        0 <= i < m.values.len(),
        0 <= other < m.values.len(),
        other != i,
        value matches Some(b) ==> b.len() <= i32::MAX,
    ensures
        ({
            let out = m.with_value(i, value).applied();
            &&& out.field_count == m.row.field_count
            &&& decode_values(out.data, out.field_count as nat) matches Some(values)
            &&& values.len() == m.values.len()
            &&& values[i] == value
            &&& values[other] == m.values[other]
        }),
        m.with_value(m.values.len() as int, value) == m,
        m.with_value(i, value).with_value(i, m.values[i]).values == m.values,
{
    let edited = m.with_value(i, value);
    assert forall|k: int| 0 <= k < edited.values.len() implies (#[trigger] edited.values[k]
        matches Some(b) ==> b.len() <= i32::MAX) by {
        if k != i {
            assert(edited.values[k] == m.values[k]);
        }
    }
    law_edits_keep_framing(edited);
    assert(edited.with_value(i, m.values[i]).values =~= m.values);
}

/// The row of given values, one after the other: the null value is a length of
/// minus one, any other its length and its bytes.
pub proof fn law_encoded_values(
    a: Seq<Option<Seq<u8>>>,
    b: Seq<Option<Seq<u8>>>,
    bytes: Seq<u8>,
)
    requires
        bytes.len() <= i32::MAX,
    ensures
        encode_values(a + b) == encode_values(a) + encode_values(b),
        encode_values(seq![None]) == seq![0xffu8, 0xffu8, 0xffu8, 0xffu8],
        ({
            let e = encode_values(seq![Some(bytes)]);
            &&& e.len() == 4 + bytes.len()
            &&& wire::i32_at(e) == bytes.len()
            &&& e.skip(4) == bytes
        }),
{
    lemma_encode_append(a, b);
    let none = seq![None::<Seq<u8>>];
    let some = seq![Some(bytes)];
    assert(none.drop_last() =~= seq![]);
    assert(some.drop_last() =~= seq![]);
    assert(encode_values(none.drop_last()) =~= Seq::<u8>::empty());
    assert(encode_values(some.drop_last()) =~= Seq::<u8>::empty());
    assert(encode_values(none) =~= wire::be_i32(-1));
    wire::law_network_order(-1, 0, 0);
    assert(encode_values(some) =~= wire::be_i32(bytes.len() as int) + bytes);
    wire::law_i32_round_trip(bytes.len() as int, bytes);
    assert(encode_values(some).skip(4) =~= bytes);
}

proof fn lemma_encode_append(a: Seq<Option<Seq<u8>>>, b: Seq<Option<Seq<u8>>>)
    ensures
        encode_values(a + b) == encode_values(a) + encode_values(b),
    decreases b.len(),
{
    if b.len() == 0 {
        assert(a + b =~= a);
        assert(encode_values(a) + encode_values(b) =~= encode_values(a));
    } else {
        lemma_encode_append(a, b.drop_last());
        assert((a + b).drop_last() =~= a + b.drop_last());
        assert(encode_values(a + b) =~= encode_values(a) + encode_values(b));
    }
}

/// The schema of a result set has a column for every field, in order, with the
/// field's name, type and format.
pub proof fn law_schema(fields: Seq<wire::FieldView>, i: int)
    requires
        0 <= i < fields.len(),
    ensures
        schema_of(fields).len() == fields.len(),
        schema_of(fields)[i].name == fields[i].name,
        schema_of(fields)[i].type_oid == fields[i].type_id,
        schema_of(fields)[i].format == fields[i].format_code,
        column_names(schema_of(fields))[i] == fields[i].name,
{
}

/// A row's errors tell which column is meant.
pub proof fn law_row_errors(i: usize, n: usize)
    ensures
        RowError::OutOfRange(i, n).spec_message() == "column index "@ + text::decimal(i as nat)
            + " out of range (schema has "@ + text::decimal(n as nat) + " columns)"@,
        RowError::Null(i).spec_message() == "column "@ + text::decimal(i as nat) + " is null"@,
{
}

} // verus!
