//! Sessions driven end to end against a scripted upstream.

use pgferry::intercept::{Action, DataRowMut, QueryCycle, RetryDecision, RowAction, RowSchema};
use pgferry::pool::{CopyCleanup, Hygiene};
use pgferry::session::model::LossCause;
use pgferry::session::pump::{DownstreamEvent, Effect, End, HookWishes, Pump, Step};
use pgferry::session::{
    admission, is_admin, lease_fate, on_first_message, startup_failure, Admission, FirstMessage,
    FirstStep, LeaseFate, SessionParams,
};
use pgferry::textmap::TextMap;
use pgferry::wire::{
    get_i32, put_i32, triggers_response, BackendKind, BackendMessage, DataRow, ErrorInfo, FieldDescription, FrontendKind,
    FrontendMessage, TransactionStatus, UpstreamEvent, CLOSE_STATEMENT,
};
use pgferry::CycleReport;

/// A client, its session, and everything that left the session.
struct Rig {
    pump: Pump,
    sent: Vec<BackendMessage>,
    reports: Vec<CycleReport>,
    upstream: Vec<FrontendMessage>,
    flushes: Vec<bool>,
    released: Vec<bool>,
    destroyed: Vec<String>,
    attached: Vec<Option<String>>,
    decision: RetryDecision,
    ended: Option<End>,
    on_query: fn(&mut QueryCycle) -> Action,
    on_row: fn(&RowSchema, &mut DataRowMut) -> RowAction,
    now: u128,
}

fn forward(_: &mut QueryCycle) -> Action {
    Action::Forward
}

fn keep(_: &RowSchema, _: &mut DataRowMut) -> RowAction {
    RowAction::Keep
}

fn rig(transaction_mode: bool, wishes: Option<HookWishes>, attached: bool) -> Rig {
    let start = if attached { Some(("primary".to_owned(), TransactionStatus::Idle)) } else { None };
    Rig {
        pump: Pump::new(transaction_mode, wishes, start, 0),
        sent: Vec::new(),
        reports: Vec::new(),
        upstream: Vec::new(),
        flushes: Vec::new(),
        released: Vec::new(),
        destroyed: Vec::new(),
        attached: Vec::new(),
        decision: RetryDecision::Relink,
        ended: None,
        on_query: forward,
        on_row: keep,
        now: 0,
    }
}

const HOOKED: Option<HookWishes> = Some(HookWishes { wants_rows: false, adjust_counts: false });
const ROWS: Option<HookWishes> = Some(HookWishes { wants_rows: true, adjust_counts: false });

impl Rig {
    fn effects(&mut self, effects: Vec<Effect>) {
        for effect in effects {
            match effect {
                Effect::Send(m) => self.sent.push(m),
                Effect::CycleEnd(r) => self.reports.push(r),
                Effect::Destroy(reason) => self.destroyed.push(reason.to_owned()),
                Effect::Release { dirty } => self.released.push(dirty),
            }
        }
    }

    fn drive(&mut self, step: Step) {
        let mut step = step;
        loop {
            assert!(self.pump.has_room());
            step = match step {
                Step::Wait { effects } => {
                    self.effects(effects);
                    return;
                }
                Step::End { effects, end } => {
                    self.effects(effects);
                    self.ended = Some(end);
                    return;
                }
                Step::Query { message, mut cycle } => {
                    let action = (self.on_query)(&mut cycle);
                    self.pump.on_query_action(message, cycle, action, self.now)
                }
                Step::Scatter { .. } => return,
                Step::Attach { message, sql_hint } => {
                    self.attached.push(sql_hint);
                    self.pump.on_attached(
                        message,
                        "primary".to_owned(),
                        TransactionStatus::Idle,
                        false,
                    )
                }
                Step::Frontend { message } => {
                    self.pump.on_frontend_action(message, Action::Forward)
                }
                Step::Forward { message, flush } => {
                    self.upstream.push(message);
                    self.flushes.push(flush);
                    self.pump.on_forwarded()
                }
                Step::Lost { cause, .. } => self.pump.on_lost(cause, self.decision, self.now),
                Step::Row { mut row } => {
                    let action = (self.on_row)(self.pump.schema().unwrap(), &mut row);
                    self.pump.on_row_action(row, action)
                }
                Step::Backend { message } => {
                    self.pump.on_backend_action(message, Action::Forward, self.now)
                }
                Step::Deliver { message, delivery } => {
                    self.sent.push(message);
                    self.pump.on_delivered(delivery)
                }
            };
        }
    }

    fn client(&mut self, message: FrontendMessage) {
        let step = self.pump.on_downstream(DownstreamEvent::Message(message), self.now);
        self.drive(step);
    }

    fn server(&mut self, message: BackendMessage) {
        let step = self.pump.on_upstream(UpstreamEvent::Message(message), self.now);
        self.drive(step);
    }

    fn ready(&mut self, status: TransactionStatus) {
        self.server(BackendMessage::ReadyForQuery { status });
    }

    /// An upstream that answers a query with one row holding its text.
    fn echo(&mut self, sql: &str) {
        self.server(described("echo"));
        self.server(BackendMessage::DataRow { row: row(&[Some(sql)]) });
        self.server(tag("SELECT 1"));
        self.ready(TransactionStatus::Idle);
    }

    fn last_upstream_sql(&self) -> &str {
        match self.upstream.last() {
            Some(FrontendMessage::Query { sql }) => sql,
            Some(FrontendMessage::Parse { sql, .. }) => sql,
            _ => panic!("no query went upstream"),
        }
    }
}

fn query(sql: &str) -> FrontendMessage {
    FrontendMessage::Query { sql: sql.to_owned() }
}

fn parse(name: &str, sql: &str) -> FrontendMessage {
    FrontendMessage::Parse { name: Some(name.to_owned()), sql: sql.to_owned(), type_oids: vec![23] }
}

fn bind(name: &str) -> FrontendMessage {
    FrontendMessage::Bind { statement: Some(name.to_owned()), encoded: vec![1, 2, 3] }
}

fn other(kind: FrontendKind) -> FrontendMessage {
    FrontendMessage::Other { kind, encoded: vec![9] }
}

fn tag(t: &str) -> BackendMessage {
    BackendMessage::CommandComplete { tag: t.to_owned() }
}

fn column(name: &str) -> FieldDescription {
    FieldDescription {
        name: name.to_owned(),
        table_id: 0,
        column_id: 0,
        type_id: 25,
        type_size: -1,
        type_modifier: -1,
        format_code: 0,
    }
}

fn described(name: &str) -> BackendMessage {
    BackendMessage::RowDescription { fields: vec![column(name)] }
}

fn row(values: &[Option<&str>]) -> DataRow {
    let mut data: Vec<u8> = Vec::new();
    for value in values {
        match value {
            Some(text) => {
                data.extend_from_slice(&(text.len() as i32).to_be_bytes());
                data.extend_from_slice(text.as_bytes());
            }
            None => data.extend_from_slice(&(-1i32).to_be_bytes()),
        }
    }
    DataRow { data, field_count: values.len() as i16 }
}

fn texts(r: &DataRow) -> Vec<Option<String>> {
    let copy = DataRow { data: r.data.clone(), field_count: r.field_count };
    let parsed = match DataRowMut::parse(copy) {
        Ok(p) => p,
        Err(_) => panic!("row does not parse"),
    };
    (0..parsed.len()).map(|i| parsed.text(i).unwrap().map(|s| s.to_owned())).collect()
}

fn rows_sent(sent: &[BackendMessage]) -> Vec<Vec<Option<String>>> {
    sent.iter()
        .filter_map(|m| match m {
            BackendMessage::DataRow { row } => Some(texts(row)),
            _ => None,
        })
        .collect()
}

fn code(m: &BackendMessage) -> String {
    match m {
        BackendMessage::ErrorResponse { error } => error.code(),
        _ => panic!("not an error"),
    }
}

fn ready_count(sent: &[BackendMessage]) -> usize {
    sent.iter().filter(|m| matches!(m, BackendMessage::ReadyForQuery { .. })).count()
}

fn denied() -> ErrorInfo {
    ErrorInfo::new("ERROR", "42501", "denied by test interceptor")
}

fn gateway(cycle: &mut QueryCycle) -> Action {
    if cycle.sql().contains("deny-me") {
        return Action::Deny(denied());
    }
    if cycle.sql().contains("rewrite-me") {
        cycle.set_sql("SELECT 'rewritten-by-proxy'".to_owned());
    }
    if cycle.sql().contains("respond-locally") {
        return Action::Reply(vec![
            described("local"),
            BackendMessage::DataRow { row: row(&[Some("local answer")]) },
            tag("SELECT 1"),
        ]);
    }
    Action::Forward
}

fn mask_all(_: &RowSchema, row: &mut DataRowMut) -> RowAction {
    for i in 0..row.len() {
        if let Ok(Some(_)) = row.text(i) {
            row.set_text(i, "***").unwrap();
        }
    }
    RowAction::Keep
}

fn mask_secret(schema: &RowSchema, row: &mut DataRowMut) -> RowAction {
    if let Some(i) = schema.column_index("secret") {
        if let Ok(Some(_)) = row.text(i) {
            row.set_text(i, "***").unwrap();
        }
    }
    RowAction::Keep
}

// ---- passthrough ----

#[test]
fn simple_query_passthrough() {
    let mut s = rig(false, None, true);
    s.client(query("SELECT 'hello world'"));
    assert_eq!(s.last_upstream_sql(), "SELECT 'hello world'");
    assert_eq!(s.flushes, vec![true]);
    s.echo("SELECT 'hello world'");
    assert_eq!(rows_sent(&s.sent), vec![vec![Some("SELECT 'hello world'".to_owned())]]);
    // what the upstream reports of its parameters reaches the client
    s.server(BackendMessage::ParameterStatus {
        name: "server_version".to_owned(),
        value: "17".to_owned(),
    });
    match s.sent.last() {
        Some(BackendMessage::ParameterStatus { name, value }) => {
            assert_eq!((name.as_str(), value.as_str()), ("server_version", "17"));
        }
        _ => panic!("no parameter"),
    }
    s.client(query("SELECT 1"));
    s.echo("SELECT 1");
    assert_eq!(rows_sent(&s.sent)[1], vec![Some("SELECT 1".to_owned())]);
    assert_eq!(s.pump.counts(), (2, 9));
    assert!(s.attached.is_empty());
}

#[test]
fn pipelined_messages_are_not_flushed() {
    let mut s = rig(false, None, true);
    s.client(parse("s", "select 1"));
    s.client(bind("s"));
    s.client(other(FrontendKind::Execute));
    s.client(FrontendMessage::Sync);
    assert_eq!(s.flushes, vec![false, false, false, true]);
    assert!(s.pump.hygiene().awaiting_response);
    s.ready(TransactionStatus::Idle);
    assert!(!s.pump.hygiene().awaiting_response);
}

#[test]
fn copy_state_is_followed() {
    let mut s = rig(false, None, true);
    s.client(query("copy t from stdin"));
    s.server(BackendMessage::Other { kind: BackendKind::CopyInResponse, encoded: vec![] });
    assert_eq!(s.pump.hygiene().copy, CopyCleanup::ClientOwesCopy);
    s.ready(TransactionStatus::Idle);
    assert_eq!(s.pump.hygiene().copy, CopyCleanup::Inactive);
    s.server(BackendMessage::Other { kind: BackendKind::CopyOutResponse, encoded: vec![] });
    assert_eq!(s.pump.hygiene().copy, CopyCleanup::ServerStreamsCopy);
}

#[test]
fn terminate_and_eof_end_the_session() {
    let mut s = rig(false, None, true);
    s.client(FrontendMessage::Terminate);
    assert!(matches!(s.ended, Some(End::ClientGone)));
    let mut s = rig(false, None, true);
    let step = s.pump.on_downstream(DownstreamEvent::Closed, 0);
    s.drive(step);
    assert!(matches!(s.ended, Some(End::ClientGone)));
    let mut s = rig(false, None, true);
    let step = s.pump.on_upstream(UpstreamEvent::Broken("bad bytes".to_owned()), 0);
    s.drive(step);
    match s.ended {
        Some(End::UpstreamBroken(reason)) => assert_eq!(reason, "upstream error: bad bytes"),
        _ => panic!("not broken"),
    }
}

// ---- interceptors ----

#[test]
fn deny_simple_protocol() {
    let mut s = rig(false, HOOKED, true);
    s.on_query = gateway;
    s.now = 5;
    s.client(query("select 'deny-me'"));
    assert_eq!(code(&s.sent[0]), "42501");
    assert_eq!(ready_count(&s.sent), 1);
    assert!(s.upstream.is_empty());

    s.client(query("select 'ok'"));
    assert_eq!(s.last_upstream_sql(), "select 'ok'");
    s.now = 12;
    s.echo("select 'ok'");

    assert_eq!(s.reports.len(), 2);
    let denied = &s.reports[0];
    assert_eq!(denied.sql.as_deref(), Some("select 'deny-me'"));
    assert_eq!(denied.error.as_ref().map(|e| e.code.as_str()), Some("42501"));
    assert_eq!(denied.rows, 0);
    assert!(denied.tag.is_none());
    let ok = &s.reports[1];
    assert_eq!(ok.sql.as_deref(), Some("select 'ok'"));
    assert_eq!(ok.tag.as_deref(), Some("SELECT 1"));
    assert_eq!(ok.rows, 1);
    assert!(ok.error.is_none());
    assert_eq!(ok.latency, 7);
}

#[test]
fn deny_extended_protocol() {
    let mut s = rig(false, HOOKED, true);
    s.on_query = gateway;
    s.client(FrontendMessage::Parse {
        name: None,
        sql: "select 'deny-me'".to_owned(),
        type_oids: vec![],
    });
    assert_eq!(code(&s.sent[0]), "42501");
    assert_eq!(s.sent.len(), 1);
    s.client(bind(""));
    s.client(other(FrontendKind::Execute));
    assert_eq!(s.sent.len(), 1);
    s.client(FrontendMessage::Sync);
    assert_eq!(s.sent.len(), 2);
    assert_eq!(ready_count(&s.sent), 1);
    assert!(s.upstream.is_empty());
    assert_eq!(s.reports.len(), 1);
    assert_eq!(s.reports[0].error.as_ref().unwrap().code, "42501");

    s.client(query("select 'ok'"));
    s.echo("select 'ok'");
    assert_eq!(rows_sent(&s.sent), vec![vec![Some("select 'ok'".to_owned())]]);
}

#[test]
fn rewrite_sql() {
    let mut s = rig(false, HOOKED, true);
    s.on_query = gateway;
    s.client(query("select 'rewrite-me'"));
    assert_eq!(s.last_upstream_sql(), "SELECT 'rewritten-by-proxy'");
    s.echo("SELECT 'rewritten-by-proxy'");
    assert_eq!(s.reports[0].sql.as_deref(), Some("SELECT 'rewritten-by-proxy'"));
}

fn rewrite_then_deny(cycle: &mut QueryCycle) -> Action {
    cycle.set_sql("select 'rewritten'".to_owned());
    Action::Deny(denied())
}

#[test]
fn reports_show_the_rewritten_sql() {
    let mut s = rig(false, HOOKED, true);
    s.on_query = rewrite_then_deny;
    s.client(query("select 'asked'"));
    assert_eq!(s.reports[0].sql.as_deref(), Some("select 'rewritten'"));
}

#[test]
fn respond_locally() {
    let mut s = rig(false, HOOKED, true);
    s.on_query = gateway;
    s.client(query("select 'respond-locally'"));
    assert_eq!(rows_sent(&s.sent), vec![vec![Some("local answer".to_owned())]]);
    assert_eq!(ready_count(&s.sent), 1);
    assert!(s.upstream.is_empty());
    assert_eq!(s.reports[0].rows, 1);
    assert_eq!(s.reports[0].tag.as_deref(), Some("SELECT 1"));
}

fn answer_with_errors(_: &mut QueryCycle) -> Action {
    Action::Reply(vec![
        BackendMessage::ErrorResponse { error: ErrorInfo::new("ERROR", "22012", "first") },
        BackendMessage::DataRow { row: row(&[Some("a")]) },
        BackendMessage::ErrorResponse { error: ErrorInfo::new("ERROR", "54000", "last") },
        BackendMessage::DataRow { row: row(&[Some("b")]) },
    ])
}

#[test]
fn local_errors_are_reported() {
    let mut s = rig(false, HOOKED, true);
    s.on_query = answer_with_errors;
    s.client(query("select 1"));
    assert_eq!(s.sent.len(), 5);
    assert_eq!(ready_count(&s.sent), 1);
    let error = s.reports[0].error.as_ref().unwrap();
    assert_eq!((error.code.as_str(), error.message.as_str()), ("54000", "last"));
    assert_eq!(s.reports[0].rows, 2);
    assert!(s.reports[0].tag.is_none());
}

#[test]
fn respond_locally_in_the_extended_protocol() {
    let mut s = rig(false, HOOKED, true);
    s.on_query = gateway;
    s.client(parse("", "select 'respond-locally'"));
    assert_eq!(rows_sent(&s.sent).len(), 1);
    assert_eq!(s.sent.len(), 4);
    assert!(matches!(
        s.sent[3],
        BackendMessage::ReadyForQuery { status: TransactionStatus::Idle }
    ));
    assert!(s.reports.is_empty());
    // then everything up to `Sync` is swallowed
    s.client(bind(""));
    s.client(other(FrontendKind::Execute));
    assert_eq!(s.sent.len(), 4);
    s.client(FrontendMessage::Sync);
    assert_eq!(ready_count(&s.sent), 2);
    assert!(s.upstream.is_empty());
    assert_eq!(s.reports.len(), 1);
    assert_eq!(s.reports[0].rows, 1);
    assert_eq!(s.reports[0].tag.as_deref(), Some("SELECT 1"));
}

#[test]
fn rows_count_when_they_are_sent() {
    let mut s = rig(false, HOOKED, true);
    s.client(query("select n"));
    // the raw hook takes a row out
    let first = BackendMessage::DataRow { row: row(&[Some("1")]) };
    match s.pump.on_upstream(UpstreamEvent::Message(first), 0) {
        Step::Backend { message } => {
            let step = s.pump.on_backend_action(message, Action::Reply(vec![]), 0);
            s.drive(step);
        }
        _ => panic!("no raw hook"),
    }
    assert!(s.sent.is_empty());
    // and puts two rows in the place of another message
    let rows = vec![
        BackendMessage::DataRow { row: row(&[Some("2")]) },
        BackendMessage::DataRow { row: row(&[Some("3")]) },
    ];
    assert!(s.pump.has_room_for(&rows));
    match s.pump.on_upstream(UpstreamEvent::Message(tag("SELECT 1")), 0) {
        Step::Backend { message } => {
            let step = s.pump.on_backend_action(message, Action::Reply(rows), 0);
            s.drive(step);
        }
        _ => panic!("no raw hook"),
    }
    s.server(BackendMessage::DataRow { row: row(&[Some("4")]) });
    s.ready(TransactionStatus::Idle);
    assert_eq!(rows_sent(&s.sent).len(), 3);
    assert_eq!(s.reports[0].rows, 3);
}

#[test]
fn rows_that_do_not_parse_go_on_and_count() {
    let mut s = rig(false, ROWS, true);
    s.on_row = mask_all;
    s.client(query("select n"));
    s.server(described("n"));
    let mut odd = row(&[Some("a")]);
    odd.data.push(b'x');
    let bytes = odd.data.clone();
    s.server(BackendMessage::DataRow { row: odd });
    match s.sent.last() {
        Some(BackendMessage::DataRow { row }) => assert_eq!(row.data, bytes),
        _ => panic!("no row"),
    }
    s.ready(TransactionStatus::Idle);
    assert_eq!(s.reports[0].rows, 1);
    assert_eq!(s.reports[0].rows_dropped, 0);
}

#[test]
fn mask_rows() {
    let mut s = rig(false, ROWS, true);
    s.on_row = mask_all;
    s.client(query("select 'secret'"));
    s.echo("select 'secret'");
    assert_eq!(rows_sent(&s.sent), vec![vec![Some("***".to_owned())]]);
}

#[test]
fn mask_rows_preserves_unmasked_columns() {
    let mut s = rig(false, ROWS, true);
    s.on_row = mask_secret;
    s.client(query("two-cols"));
    s.server(BackendMessage::RowDescription { fields: vec![column("public"), column("secret")] });
    s.server(BackendMessage::DataRow { row: row(&[Some("show"), Some("classified")]) });
    s.server(tag("SELECT 1"));
    s.ready(TransactionStatus::Idle);
    assert_eq!(
        rows_sent(&s.sent),
        vec![vec![Some("show".to_owned()), Some("***".to_owned())]]
    );

    // a row that no hook edits is forwarded byte for byte
    let mut s = rig(false, ROWS, true);
    s.client(query("two-cols"));
    s.server(BackendMessage::RowDescription { fields: vec![column("public"), column("other")] });
    let mut odd = row(&[Some("show"), None]);
    odd.data.extend_from_slice(b"trailing");
    let bytes = odd.data.clone();
    s.server(BackendMessage::DataRow { row: odd });
    match s.sent.last() {
        Some(BackendMessage::DataRow { row }) => assert_eq!(row.data, bytes),
        _ => panic!("no row"),
    }
}

fn drop_second(_: &RowSchema, row: &mut DataRowMut) -> RowAction {
    if row.text(0).unwrap() == Some("2") {
        RowAction::Drop
    } else {
        RowAction::Keep
    }
}

#[test]
fn dropped_rows_leave_the_count() {
    let wishes = Some(HookWishes { wants_rows: true, adjust_counts: true });
    let mut s = rig(false, wishes, true);
    s.on_row = drop_second;
    s.client(query("select n"));
    s.server(described("n"));
    for v in ["1", "2", "3"] {
        s.server(BackendMessage::DataRow { row: row(&[Some(v)]) });
    }
    s.server(tag("SELECT 3"));
    s.ready(TransactionStatus::Idle);
    assert_eq!(rows_sent(&s.sent).len(), 2);
    match &s.sent[3] {
        BackendMessage::CommandComplete { tag } => assert_eq!(tag, "SELECT 2"),
        _ => panic!("no tag"),
    }
    assert_eq!(s.reports[0].rows, 2);
    assert_eq!(s.reports[0].rows_dropped, 1);
    assert_eq!(s.reports[0].tag.as_deref(), Some("SELECT 3"));
}

#[test]
fn raw_hooks_may_answer_or_close() {
    let mut s = rig(false, HOOKED, true);
    let step = s.pump.on_downstream(DownstreamEvent::Message(query("q")), 0);
    let message = match step {
        Step::Query { message, cycle } => {
            match s.pump.on_query_action(message, cycle, Action::Forward, 0) {
                Step::Frontend { message } => message,
                _ => panic!("no raw hook"),
            }
        }
        _ => panic!("no query hook"),
    };
    let step = s.pump.on_frontend_action(message, Action::Reply(vec![tag("X")]));
    s.drive(step);
    assert_eq!(s.sent.len(), 1);
    assert!(s.upstream.is_empty());
    let step = s.pump.on_frontend_action(query("q"), Action::Deny(denied()));
    s.drive(step);
    assert!(matches!(s.ended, Some(End::ClientGone)));
    let mut s = rig(false, HOOKED, true);
    let step = s.pump.on_backend_action(tag("X"), Action::Reply(vec![]), 0);
    s.drive(step);
    assert_eq!(s.pump.counts(), (0, 1));
    let step = s.pump.on_backend_action(tag("X"), Action::Close, 0);
    s.drive(step);
    assert!(matches!(s.ended, Some(End::ClientGone)));
}

// ---- transaction mode ----

#[test]
fn transaction_mode_shares_connection_across_sessions() {
    let mut a = rig(true, None, false);
    let mut b = rig(true, None, false);

    a.client(query("BEGIN"));
    assert_eq!(a.attached, vec![Some("BEGIN".to_owned())]);
    a.server(tag("BEGIN"));
    a.ready(TransactionStatus::Transaction);
    assert!(a.released.is_empty());
    a.client(query("select 'a-in-tx'"));
    assert_eq!(a.last_upstream_sql(), "select 'a-in-tx'");
    a.server(tag("SELECT 1"));
    a.ready(TransactionStatus::Transaction);
    assert!(a.released.is_empty());
    a.client(query("COMMIT"));
    a.server(tag("COMMIT"));
    a.ready(TransactionStatus::Idle);
    assert_eq!(a.released, vec![false]);
    assert!(a.pump.lease().is_none());

    b.client(query("select 'b-tx'"));
    b.echo("select 'b-tx'");
    assert_eq!(b.released, vec![false]);
    a.client(query("select 'a2'"));
    a.echo("select 'a2'");
    b.client(query("select 'b2'"));
    b.echo("select 'b2'");
    assert_eq!(a.attached.len(), 2);
    assert_eq!(b.attached.len(), 2);
    assert_eq!(a.released.len(), 2);
    assert_eq!(b.released.len(), 2);
}

#[test]
fn transaction_mode_replays_prepared_statements() {
    let mut s = rig(true, None, false);
    s.client(parse("s1", "SELECT 'prepared'"));
    s.client(other(FrontendKind::Describe));
    s.client(FrontendMessage::Sync);
    s.server(BackendMessage::ParseComplete);
    s.ready(TransactionStatus::Idle);
    // the connection carries a statement: it is reset on the way back
    assert_eq!(s.released, vec![true]);

    let messages = s.pump.registry().replay();
    assert_eq!(messages.len(), 2);
    match &messages[0] {
        FrontendMessage::Parse { name, sql, type_oids } => {
            assert_eq!(name.as_deref(), Some("s1"));
            assert_eq!(sql, "SELECT 'prepared'");
            assert_eq!(type_oids, &vec![23]);
        }
        _ => panic!("not a Parse"),
    }
    assert!(matches!(messages[1], FrontendMessage::Sync));

    // executing it routes by its SQL
    s.client(bind("s1"));
    assert_eq!(s.attached[1].as_deref(), Some("SELECT 'prepared'"));
    s.client(other(FrontendKind::Execute));
    s.client(FrontendMessage::Sync);
    s.ready(TransactionStatus::Idle);

    s.client(query("select 'after-extended'"));
    s.echo("select 'after-extended'");
    assert_eq!(rows_sent(&s.sent), vec![vec![Some("select 'after-extended'".to_owned())]]);

    // preparing it again is answered locally
    let before = s.upstream.len();
    s.client(parse("s1", "SELECT 'prepared'"));
    assert!(matches!(s.sent.last(), Some(BackendMessage::ParseComplete)));
    assert_eq!(s.upstream.len(), before);
}

#[test]
fn transaction_mode_answers_sync_locally() {
    let mut s = rig(true, None, false);
    s.client(FrontendMessage::Sync);
    assert_eq!(s.sent.len(), 1);
    assert_eq!(ready_count(&s.sent), 1);
    s.client(FrontendMessage::Flush);
    assert_eq!(s.sent.len(), 1);
    assert!(s.attached.is_empty());

    // describing an unknown statement: the server's error reaches the client
    s.client(other(FrontendKind::Describe));
    assert_eq!(s.attached, vec![None]);
    s.client(FrontendMessage::Sync);
    assert_eq!(s.upstream.len(), 2);
    s.server(BackendMessage::ErrorResponse {
        error: ErrorInfo::new("ERROR", "26000", "statement does-not-exist does not exist"),
    });
    assert_eq!(code(s.sent.last().unwrap()), "26000");
    s.ready(TransactionStatus::Idle);
    assert_eq!(ready_count(&s.sent), 2);
    assert!(s.pump.lease().is_none());

    // still usable
    s.client(query("select 'still-ok'"));
    s.echo("select 'still-ok'");
    assert_eq!(rows_sent(&s.sent), vec![vec![Some("select 'still-ok'".to_owned())]]);
}

#[test]
fn closing_a_statement_forgets_it() {
    let mut s = rig(true, None, false);
    s.client(parse("s1", "SELECT 1"));
    s.client(FrontendMessage::Sync);
    s.ready(TransactionStatus::Idle);
    // a portal of that name is something else
    s.client(FrontendMessage::Close { target: b'P', name: Some("s1".to_owned()) });
    assert!(matches!(s.sent.last(), Some(BackendMessage::CloseComplete)));
    assert!(s.pump.registry().lookup("s1").is_some());
    s.client(FrontendMessage::Close { target: CLOSE_STATEMENT, name: Some("s1".to_owned()) });
    assert!(s.pump.registry().lookup("s1").is_none());
    assert!(s.pump.registry().replay().is_empty());

    // attached, the close is forwarded as well
    let mut s = rig(false, None, true);
    s.client(parse("s2", "SELECT 2"));
    s.client(FrontendMessage::Close { target: CLOSE_STATEMENT, name: Some("s2".to_owned()) });
    assert_eq!(s.upstream.len(), 2);
    assert!(s.pump.registry().lookup("s2").is_none());
}

#[test]
fn duplicate_statement_is_refused() {
    let mut s = rig(false, HOOKED, true);
    s.client(parse("s1", "SELECT 1"));
    s.client(FrontendMessage::Sync);
    s.ready(TransactionStatus::Idle);
    s.client(parse("s1", "SELECT 2"));
    let last = s.sent.len() - 1;
    assert_eq!(code(&s.sent[last]), "42P05");
    match &s.sent[last] {
        BackendMessage::ErrorResponse { error } => assert_eq!(
            error.message(),
            "prepared statement \"s1\" already exists (pgferry)"
        ),
        _ => panic!("no error"),
    }
    let upstream = s.upstream.len();
    s.client(bind("s1"));
    s.client(FrontendMessage::Sync);
    assert_eq!(s.upstream.len(), upstream);
    let report = s.reports.last().unwrap();
    assert_eq!(report.error.as_ref().unwrap().code, "42P05");
}

#[test]
fn dirty_mark_survives_a_transaction() {
    let mut s = rig(true, None, false);
    s.client(query("begin; set datestyle = 'ISO'"));
    s.server(BackendMessage::ParameterStatus {
        name: "DateStyle".to_owned(),
        value: "ISO".to_owned(),
    });
    s.ready(TransactionStatus::Transaction);
    assert!(s.released.is_empty());
    s.client(query("commit"));
    s.ready(TransactionStatus::Idle);
    assert_eq!(s.released, vec![true]);
    assert_eq!(s.pump.overrides().get("DateStyle").map(|v| v.as_str()), Some("ISO"));
    // the next lease starts clean
    s.client(query("select 1"));
    s.ready(TransactionStatus::Idle);
    assert_eq!(s.released, vec![true, false]);
}

// ---- failover ----

#[test]
fn failover_mid_session_relink() {
    let mut s = rig(false, HOOKED, true);
    s.client(query("select warmup"));
    s.echo("select warmup");
    s.client(query("select doomed"));
    let step = s.pump.on_upstream(UpstreamEvent::Closed, 0);
    match &step {
        Step::Lost { cause, error } => {
            assert_eq!(*cause, LossCause::Closed);
            assert_eq!(error.endpoint(), "primary");
        }
        _ => panic!("not lost"),
    }
    s.drive(step);
    assert_eq!(s.destroyed, vec!["upstream lost".to_owned()]);
    let n = s.sent.len();
    assert_eq!(code(&s.sent[n - 2]), "08006");
    assert!(matches!(
        s.sent[n - 1],
        BackendMessage::ReadyForQuery { status: TransactionStatus::Idle }
    ));
    assert_eq!(s.reports.last().unwrap().error.as_ref().unwrap().code, "08006");
    assert!(s.pump.lease().is_none());
    assert!(!s.pump.shown_attached());

    let before = s.upstream.len();
    s.client(query("select after-failover"));
    assert_eq!(s.upstream.len(), before + 1);
    assert_eq!(s.last_upstream_sql(), "select after-failover");
    assert_eq!(s.attached.len(), 1);
    assert!(s.ended.is_none());
}

#[test]
fn statements_survive_failover_relink() {
    let mut s = rig(false, None, true);
    s.client(parse("s1", "SELECT 'stmt'"));
    s.client(FrontendMessage::Sync);
    s.ready(TransactionStatus::Idle);
    // lost while idle: nothing to answer
    let sent = s.sent.len();
    let step = s.pump.on_upstream(UpstreamEvent::Closed, 0);
    s.drive(step);
    assert_eq!(s.sent.len(), sent);
    assert!(s.pump.lease().is_none());
    assert_eq!(s.pump.registry().replay().len(), 2);
    s.client(bind("s1"));
    assert_eq!(s.attached, vec![Some("SELECT 'stmt'".to_owned())]);
}

#[test]
fn send_failure_in_an_extended_cycle_recovers_at_sync() {
    let mut s = rig(false, HOOKED, true);
    s.client(parse("s1", "SELECT 1"));
    let step = s.pump.on_downstream(DownstreamEvent::Message(bind("s1")), 0);
    let message = match step {
        Step::Frontend { message } => message,
        _ => panic!("no raw hook"),
    };
    let step = match s.pump.on_frontend_action(message, Action::Forward) {
        Step::Forward { .. } => s.pump.on_forward_failed(0),
        _ => panic!("not forwarded"),
    };
    s.drive(step);
    assert_eq!(code(s.sent.last().unwrap()), "08006");
    assert_eq!(s.destroyed, vec!["send failed".to_owned()]);
    s.client(FrontendMessage::Sync);
    assert_eq!(ready_count(&s.sent), 1);
    assert_eq!(s.reports.last().unwrap().error.as_ref().unwrap().code, "08006");
    // the error policy may also end the session
    let mut s = rig(false, HOOKED, true);
    s.decision = RetryDecision::Close;
    let step = s.pump.on_upstream(UpstreamEvent::Closed, 0);
    s.drive(step);
    match s.ended {
        Some(End::UpstreamBroken(reason)) => assert_eq!(reason, "upstream EOF"),
        _ => panic!("not broken"),
    }
}

#[test]
fn lost_parse_is_kept() {
    let mut s = rig(false, HOOKED, true);
    let step = s.pump.on_downstream(DownstreamEvent::Message(parse("s1", "SELECT 1")), 0);
    let step = match step {
        Step::Query { message, cycle } => {
            s.pump.on_query_action(message, cycle, Action::Forward, 0)
        }
        _ => panic!("no query hook"),
    };
    let step = match step {
        Step::Frontend { message } => s.pump.on_frontend_action(message, Action::Forward),
        _ => panic!("no raw hook"),
    };
    assert!(matches!(step, Step::Forward { .. }));
    let step = s.pump.on_forward_failed(0);
    s.drive(step);
    assert!(s.sent.is_empty());
    assert_eq!(s.destroyed, vec!["send failed".to_owned()]);
    assert_eq!(s.pump.registry().lookup("s1").unwrap().sql, "SELECT 1");
    assert_eq!(s.pump.registry().replay().len(), 2);
}

#[test]
fn attach_failure_is_fatal() {
    let mut s = rig(true, None, false);
    let step = s.pump.on_downstream(DownstreamEvent::Message(query("select 1")), 0);
    assert!(matches!(step, Step::Attach { .. }));
    let step = s.pump.on_attach_failed("pgferry: all upstream endpoints failed");
    s.drive(step);
    match &s.sent[0] {
        BackendMessage::ErrorResponse { error } => {
            assert_eq!(error.field(b'S'), "FATAL");
            assert_eq!(error.code(), "08006");
            assert_eq!(error.message(), "pgferry: all upstream endpoints failed");
        }
        _ => panic!("no error"),
    }
    assert!(matches!(s.ended, Some(End::ClientGone)));
}

// ---- shutdown and cancel ----

#[test]
fn graceful_shutdown() {
    // idle: at once
    let mut s = rig(false, None, true);
    s.client(query("select 1"));
    s.echo("select 1");
    let step = s.pump.on_shutdown();
    s.drive(step);
    assert!(matches!(s.ended, Some(End::ClientGone)));
    // busy: when the cycle is done
    let mut s = rig(false, None, true);
    s.client(query("select pg_sleep(1)"));
    let step = s.pump.on_shutdown();
    s.drive(step);
    assert!(s.ended.is_none());
    s.server(tag("SELECT 1"));
    assert!(s.ended.is_none());
    s.ready(TransactionStatus::Idle);
    assert!(matches!(s.ended, Some(End::ClientGone)));
    assert_eq!(ready_count(&s.sent), 1);
}

#[test]
fn cancel_needs_a_connection() {
    let s = rig(true, None, false);
    assert!(!s.pump.on_cancel());
    let s = rig(false, None, true);
    assert!(s.pump.on_cancel());
}

#[test]
fn lease_fates() {
    let h = Hygiene { awaiting_response: true, copy: CopyCleanup::Inactive };
    assert!(matches!(lease_fate(End::ClientGone, false, h), LeaseFate::Nothing));
    match lease_fate(End::ClientGone, true, h) {
        LeaseFate::Checkin(kept) => assert_eq!(kept, h),
        _ => panic!("not checked in"),
    }
    match lease_fate(End::UpstreamBroken("gone".to_owned()), true, h) {
        LeaseFate::Destroy(why) => assert_eq!(why, "gone"),
        _ => panic!("not destroyed"),
    }
}

// ---- startup ----

fn startup(pairs: &[(&str, &str)]) -> TextMap<String> {
    let mut m = TextMap::new();
    for (k, v) in pairs {
        m.insert((*k).to_owned(), (*v).to_owned());
    }
    m
}

#[test]
fn first_messages() {
    assert!(matches!(
        on_first_message(FirstMessage::Startup { major: 3, minor: 0 }),
        FirstStep::Start
    ));
    assert!(matches!(
        on_first_message(FirstMessage::Startup { major: 3, minor: 9999 }),
        FirstStep::NegotiateDown
    ));
    match on_first_message(FirstMessage::Startup { major: 2, minor: 7 }) {
        FirstStep::Refuse(e) => {
            assert_eq!(e.code(), "08P01");
            assert_eq!(e.message(), "pgferry: unsupported protocol version 2.7");
        }
        _ => panic!("not refused"),
    }
    match on_first_message(FirstMessage::Other { shown: "Query".to_owned() }) {
        FirstStep::Refuse(e) => assert_eq!(e.message(), "pgferry: expected Startup, got Query"),
        _ => panic!("not refused"),
    }
    assert!(matches!(
        on_first_message(FirstMessage::Cancel { pid: 7, secret: vec![1] }),
        FirstStep::Cancel { pid: 7, .. }
    ));
    assert!(matches!(on_first_message(FirstMessage::Nothing), FirstStep::Close));
}

#[test]
fn admissions() {
    let p = SessionParams::from_startup(&startup(&[("user", "u"), ("database", "d")]));
    assert_eq!(p.user, "u");
    assert_eq!(p.database.as_deref(), Some("d"));
    assert!(!p.replication);
    assert!(matches!(admission(&p, None), Admission::Serve));
    assert!(matches!(admission(&p, Some("d")), Admission::Admin));
    assert!(is_admin(&p, Some("d")));
    assert!(matches!(admission(&p, Some("x")), Admission::Serve));
    for value in ["1", "true", "database", "on"] {
        let p = SessionParams::from_startup(&startup(&[("user", "u"), ("replication", value)]));
        match admission(&p, None) {
            Admission::Refuse(e) => assert_eq!(e.code(), "0A000"),
            _ => panic!("not refused"),
        }
    }
    let p = SessionParams::from_startup(&startup(&[("user", "u"), ("replication", "off")]));
    assert!(matches!(admission(&p, None), Admission::Serve));
    let p = SessionParams::from_startup(&startup(&[]));
    match admission(&p, None) {
        Admission::Refuse(e) => {
            assert_eq!(e.code(), "28000");
            assert_eq!(e.message(), "pgferry: no user specified in startup packet");
        }
        _ => panic!("not refused"),
    }
    assert_eq!(
        startup_failure("refused").message(),
        "pgferry: failed to connect to upstream: refused"
    );
}

#[test]
fn integers_are_big_endian() {
    let mut data = vec![7];
    put_i32(&mut data, -2);
    put_i32(&mut data, 258);
    assert_eq!(data, vec![7, 255, 255, 255, 254, 0, 0, 1, 2]);
    assert_eq!(get_i32(&data, 1), -2);
    assert_eq!(get_i32(&data, 5), 258);
}

#[test]
fn text_maps_hold_each_key_once() {
    let mut m = startup(&[("a", "1"), ("b", "2"), ("a", "3")]);
    assert_eq!(m.len(), 2);
    assert_eq!(m.get("a").map(|v| v.as_str()), Some("3"));
    assert_eq!(m.key_at(1), "b");
    assert_eq!(m.value_at(1), "2");
    m.remove("a");
    m.remove("z");
    assert!(m.get("a").is_none());
    assert_eq!(m.len(), 1);
}

#[test]
fn message_kinds_have_names() {
    assert_eq!(query("x").kind().name(), "Query");
    assert_eq!(other(FrontendKind::CopyFail).kind().name(), "CopyFail");
    assert_eq!(tag("X").kind().name(), "CommandComplete");
    assert!(triggers_response(FrontendKind::CopyData));
    assert!(!triggers_response(FrontendKind::Execute));
}

#[test]
fn server_errors_keep_code_and_message() {
    let e = ErrorInfo::from_fields(vec![
        (b'M', "boom".to_owned()),
        (b'C', "XX000".to_owned()),
        (b'?', "unknown".to_owned()),
        (b'S', "ERROR".to_owned()),
    ]);
    assert_eq!(e.code(), "XX000");
    assert_eq!(e.message(), "boom");
    assert_eq!(e.fields[0], (b'S', "ERROR".to_owned()));
    assert!(e.fields.iter().all(|(k, _)| *k != b'?'));
}

#[test]
fn server_errors_are_put_in_order() {
    let field = |key: u8, value: &str| (key, value.to_owned());
    let e = ErrorInfo::from_fields(vec![
        field(b'L', "+0042"),
        field(b'R', "exec_simple"),
        field(b'C', "first"),
        field(b'V', "FATAL"),
        field(b'D', "detail"),
        field(b'C', "57P01"),
        field(b'?', "unknown"),
        field(b'n', "constraint"),
    ]);
    assert_eq!(
        e.fields,
        vec![
            field(b'S', ""),
            field(b'V', "FATAL"),
            field(b'C', "57P01"),
            field(b'M', ""),
            field(b'D', "detail"),
            field(b'L', "42"),
            field(b'R', "exec_simple"),
            field(b'n', "constraint"),
        ]
    );
    for line in ["", "+", "-1", " 7", "1 2", "99999999999999999999999"] {
        let e = ErrorInfo::from_fields(vec![field(b'L', line)]);
        assert_eq!(e.field(b'L'), "0");
    }
}
