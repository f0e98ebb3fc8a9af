//! Scatter-gather.

use pgferry::config::{EndpointConfig, RouteConfig, UpstreamTlsConfig};
use pgferry::intercept::{Action, CycleKind, QueryCycle};
use pgferry::scatter::{
    session_leg, validate, CollectStep, Gather, GatherStep, LegResult, MergePolicy, Merged,
    ScatterFailure, ScatterRequest, ShardSet,
};
use pgferry::session::pump::{DownstreamEvent, Effect, HookWishes, Pump, Step};
use pgferry::wire::{
    BackendMessage, DataRow, ErrorInfo, FieldDescription, FrontendMessage, TransactionStatus,
    UpstreamEvent,
};

fn shard_set(ids: &[&str]) -> ShardSet {
    ShardSet::new(ids.iter().map(|s| (*s).to_owned()).collect())
}

fn request(ids: &[&str], merge: MergePolicy) -> ScatterRequest {
    match shard_set(ids).broadcast("select count(*) from t", merge, "SELECT") {
        Action::Scatter(r) => r,
        _ => panic!("no scatter"),
    }
}

fn described(name: &str) -> BackendMessage {
    BackendMessage::RowDescription {
        fields: vec![FieldDescription {
            name: name.to_owned(),
            table_id: 0,
            column_id: 0,
            type_id: 20,
            type_size: 8,
            type_modifier: -1,
            format_code: 0,
        }],
    }
}

fn row(text: &str) -> BackendMessage {
    let mut data = (text.len() as i32).to_be_bytes().to_vec();
    data.extend_from_slice(text.as_bytes());
    BackendMessage::DataRow { row: DataRow { data, field_count: 1 } }
}

/// A leg whose query brought these rows.
fn leg(name: &str, rows: &[&str]) -> LegResult {
    let mut result = LegResult::new();
    let _ = result.on_event(UpstreamEvent::Message(described(name)));
    for r in rows {
        let _ = result.on_event(UpstreamEvent::Message(row(r)));
    }
    let tag = BackendMessage::CommandComplete { tag: format!("SELECT {}", rows.len()) };
    let _ = result.on_event(UpstreamEvent::Message(tag));
    let ready = BackendMessage::ReadyForQuery { status: TransactionStatus::Idle };
    assert!(matches!(
        result.on_event(UpstreamEvent::Message(ready)),
        CollectStep::Done(TransactionStatus::Idle)
    ));
    result
}

fn finished(g: Gather) -> Result<Merged, ScatterFailure> {
    assert!(g.can_finish());
    g.finish()
}

fn texts(messages: &[BackendMessage]) -> Vec<String> {
    messages
        .iter()
        .filter_map(|m| match m {
            BackendMessage::DataRow { row } => {
                Some(String::from_utf8(row.data[4..].to_vec()).unwrap())
            }
            _ => None,
        })
        .collect()
}

fn last_tag(messages: &[BackendMessage]) -> String {
    match messages.last() {
        Some(BackendMessage::CommandComplete { tag }) => tag.clone(),
        _ => panic!("no tag"),
    }
}

#[test]
fn scatter_sum_merge() {
    let r = request(&["shard-a", "shard-b"], MergePolicy::Sum);
    let mut g = Gather::new(&r);
    assert!(g.on_pooled(1, "shard-b", leg("count", &["5"]), false));
    g.on_pooled(0, "shard-a", leg("count", &[" 3 "]), false);
    let merged = match finished(g) {
        Ok(m) => m,
        Err(_) => panic!("failed"),
    };
    assert_eq!(merged.rows, 1);
    assert_eq!(texts(&merged.messages), vec!["8".to_owned()]);
    assert!(matches!(merged.messages[0], BackendMessage::RowDescription { .. }));
    match &merged.messages[1] {
        BackendMessage::DataRow { row } => assert_eq!(row.data, vec![0, 0, 0, 1, b'8']),
        _ => panic!("no row"),
    }
    assert_eq!(last_tag(&merged.messages), "SELECT 1");
}

#[test]
fn negative_and_large_sums() {
    let r = request(&["a", "b"], MergePolicy::Sum);
    let mut g = Gather::new(&r);
    g.on_pooled(0, "a", leg("n", &["-10", "+3"]), false);
    g.on_pooled(1, "b", leg("n", &["170141183460469231731687303715884105727"]), false);
    assert_eq!(
        texts(&finished(g).ok().unwrap().messages),
        vec!["170141183460469231731687303715884105720".to_owned()]
    );
    let mut g = Gather::new(&r);
    g.on_pooled(0, "a", leg("n", &["1"]), false);
    g.on_pooled(1, "b", leg("n", &["170141183460469231731687303715884105727"]), false);
    assert!(!g.can_finish());
    let mut g = Gather::new(&r);
    let mut short = LegResult::new();
    let bad = BackendMessage::DataRow { row: DataRow { data: vec![0, 0], field_count: 1 } };
    assert!(matches!(short.on_event(UpstreamEvent::Message(bad)), CollectStep::Continue));
    g.on_pooled(0, "a", short, false);
    assert!(!g.can_finish());
}

#[test]
fn sums_need_numbers() {
    let r = request(&["a"], MergePolicy::Sum);
    for value in ["x", "", "1.5", "-"] {
        let mut g = Gather::new(&r);
        g.on_pooled(0, "a", leg("n", &[value]), false);
        match finished(g) {
            Err(f) => {
                assert_eq!(f.error.code(), "0A000");
                assert_eq!(
                    f.error.message(),
                    "pgferry scatter: Sum merge requires a numeric first column"
                );
            }
            Ok(_) => panic!("summed {value}"),
        }
    }
    let mut g = Gather::new(&r);
    let mut null = LegResult::new();
    let data = (-1i32).to_be_bytes().to_vec();
    let m = BackendMessage::DataRow { row: DataRow { data, field_count: 1 } };
    let _ = null.on_event(UpstreamEvent::Message(m));
    g.on_pooled(0, "a", null, false);
    assert!(finished(g).is_err());
}

#[test]
fn scatter_concat_merge() {
    let r = request(&["shard-a", "shard-b"], MergePolicy::Concat);
    let mut g = Gather::new(&r);
    // the second shard answers first: rows still come in leg order
    g.on_pooled(1, "shard-b", leg("m", &["b"]), false);
    g.on_own(0, "shard-a", leg("m", &["a"]), Some(TransactionStatus::Idle));
    let merged = finished(g).ok().unwrap();
    assert_eq!(texts(&merged.messages), vec!["a".to_owned(), "b".to_owned()]);
    assert_eq!(merged.rows, 2);
    assert_eq!(merged.session_status, Some(TransactionStatus::Idle));
    let descriptions = merged
        .messages
        .iter()
        .filter(|m| matches!(m, BackendMessage::RowDescription { .. }))
        .count();
    assert_eq!(descriptions, 1);
    assert_eq!(last_tag(&merged.messages), "SELECT 2");
}

#[test]
fn scatter_shard_failure_is_clean() {
    let r = request(&["shard-a", "shard-b"], MergePolicy::Sum);
    // the connection breaks
    let mut g = Gather::new(&r);
    assert!(!g.on_pooled(0, "shard-a", LegResult::new(), true));
    assert_eq!(g.next_step(1, None), GatherStep::Finish);
    match finished(g) {
        Err(f) => {
            assert_eq!(f.error.code(), "08006");
            assert_eq!(f.error.message(), "shard shard-a failed");
            assert!(!f.session_lease_broken);
        }
        Ok(_) => panic!("merged"),
    }
    // the shard cannot be reached
    let mut g = Gather::new(&r);
    g.on_pooled(1, "shard-b", LegResult::unreachable("refused"), true);
    match finished(g) {
        Err(f) => assert_eq!(f.error.message(), "connect to shard failed: refused"),
        Ok(_) => panic!("merged"),
    }
    // the shard's own error is passed on
    let mut g = Gather::new(&r);
    let mut failed = LegResult::new();
    let error = ErrorInfo::new("ERROR", "57P01", "killed");
    let _ = failed.on_event(UpstreamEvent::Message(BackendMessage::ErrorResponse { error }));
    g.on_pooled(0, "shard-a", failed, false);
    match finished(g) {
        Err(f) => assert_eq!((f.error.code(), f.error.message()), ("57P01".to_owned(), "killed".to_owned())),
        Ok(_) => panic!("merged"),
    }
    // the session's own connection breaks
    let mut g = Gather::new(&r);
    g.on_own(0, "shard-a", LegResult::new(), None);
    match finished(g) {
        Err(f) => assert!(f.session_lease_broken),
        Ok(_) => panic!("merged"),
    }
}

#[test]
fn legs_note_parameters() {
    let mut l = LegResult::new();
    assert!(!l.is_dirty());
    let ps = BackendMessage::ParameterStatus { name: "a".to_owned(), value: "b".to_owned() };
    assert!(matches!(l.on_event(UpstreamEvent::Message(ps)), CollectStep::SetParameter { .. }));
    assert!(l.is_dirty());
    assert!(matches!(l.on_event(UpstreamEvent::Closed), CollectStep::Broken));
}

#[test]
fn legs_are_checked_and_planned() {
    let route = RouteConfig {
        name: "r".to_owned(),
        endpoints: vec![EndpointConfig {
            id: "a".to_owned(),
            upstream: String::new(),
            password: None,
            tls: None,
        }],
        password: None,
        tls: UpstreamTlsConfig::default(),
    };
    assert!(validate(&request(&["a"], MergePolicy::Sum), &route).is_ok());
    match validate(&request(&["a", "x"], MergePolicy::Sum), &route) {
        Err(f) => {
            assert_eq!(f.error.code(), "0A000");
            assert_eq!(f.error.message(), "pgferry scatter: unknown endpoint \"x\"");
        }
        Ok(()) => panic!("accepted"),
    }
    let r = request(&["a", "b", "b"], MergePolicy::Concat);
    assert_eq!(session_leg(&r, Some("b"), true), Some(1));
    assert_eq!(session_leg(&r, Some("b"), false), None);
    assert_eq!(session_leg(&r, Some("z"), true), None);
    assert_eq!(session_leg(&r, None, true), None);
    assert_eq!(r.legs.len(), 3);
    assert_eq!(r.legs[2].sql, "select count(*) from t");
}

fn ask(status: TransactionStatus, message: FrontendMessage, r: ScatterRequest) -> (Pump, Step) {
    let wishes = Some(HookWishes { wants_rows: false, adjust_counts: false });
    let start = Some(("a".to_owned(), TransactionStatus::Idle));
    let mut pump = Pump::new(false, wishes, start, 0);
    let _ = pump.on_upstream(
        UpstreamEvent::Message(BackendMessage::ReadyForQuery { status }),
        0,
    );
    let step = match pump.on_downstream(DownstreamEvent::Message(message), 0) {
        Step::Query { message, cycle } => {
            pump.on_query_action(message, cycle, Action::Scatter(r), 0)
        }
        _ => panic!("no query hook"),
    };
    (pump, step)
}

fn simple() -> FrontendMessage {
    FrontendMessage::Query { sql: "select count(*) from t".to_owned() }
}

fn refused(step: Step) -> String {
    match step {
        Step::Wait { effects } => match &effects[0] {
            Effect::Send(BackendMessage::ErrorResponse { error }) => {
                assert_eq!(error.code(), "0A000");
                error.message()
            }
            _ => panic!("no error"),
        },
        _ => panic!("not refused"),
    }
}

#[test]
fn scatter_is_restricted() {
    let r = || request(&["a"], MergePolicy::Sum);
    let (pump, step) = ask(TransactionStatus::Transaction, simple(), r());
    match &step {
        Step::Wait { effects } => {
            assert_eq!(effects.len(), 3);
            assert!(matches!(
                effects[1],
                Effect::Send(BackendMessage::ReadyForQuery {
                    status: TransactionStatus::Transaction
                })
            ));
        }
        _ => panic!("not refused"),
    }
    assert_eq!(refused(step), "pgferry scatter: not allowed inside a transaction");
    assert_eq!(pump.lease(), Some(TransactionStatus::Transaction));
    assert_eq!(pump.endpoint(), Some("a"));
    assert!(pump.shown_attached());
    let parse = FrontendMessage::Parse { name: None, sql: "select 1".to_owned(), type_oids: vec![] };
    let (mut pump, step) = ask(TransactionStatus::Idle, parse, r());
    match &step {
        Step::Wait { effects } => {
            assert_eq!(effects.len(), 3);
            assert!(matches!(effects[1], Effect::Send(BackendMessage::ReadyForQuery { .. })));
            match &effects[2] {
                Effect::CycleEnd(report) => {
                    assert_eq!(report.error.as_ref().unwrap().code, "0A000");
                }
                _ => panic!("no report"),
            }
        }
        _ => panic!("not refused"),
    }
    assert_eq!(refused(step), "pgferry scatter: simple protocol only");
    // nothing is swallowed: the next message goes on
    match pump.on_downstream(DownstreamEvent::Message(FrontendMessage::Sync), 0) {
        Step::Frontend { message: FrontendMessage::Sync } => {}
        _ => panic!("swallowed"),
    }
}

#[test]
fn failed_scatter_keeps_an_unbroken_connection() {
    let (mut pump, _) = ask(TransactionStatus::Idle, simple(), request(&["b"], MergePolicy::Sum));
    let failure = ScatterFailure {
        error: ErrorInfo::new("ERROR", "08006", "shard b failed"),
        session_lease_broken: false,
        session_status: None,
    };
    match pump.on_scattered("SELECT", Err(failure), 0) {
        Step::Wait { effects } => assert_eq!(effects.len(), 3),
        _ => panic!("not answered"),
    }
    assert_eq!(pump.lease(), Some(TransactionStatus::Idle));
    assert_eq!(pump.endpoint(), Some("a"));
    assert!(pump.shown_attached());
    // losing it later names the endpoint
    match pump.on_upstream(UpstreamEvent::Closed, 0) {
        Step::Lost { error, .. } => assert_eq!(error.endpoint(), "a"),
        _ => panic!("not lost"),
    }
}

#[test]
fn scatter_answers_the_cycle() {
    let (mut pump, step) =
        ask(TransactionStatus::Idle, simple(), request(&["a"], MergePolicy::Sum));
    assert!(matches!(step, Step::Scatter { .. }));
    let merged = Merged {
        messages: vec![described("n"), row("8")],
        rows: 1,
        session_status: Some(TransactionStatus::Idle),
    };
    match pump.on_scattered("SELECT", Ok(merged), 3) {
        Step::Wait { effects } => {
            assert_eq!(effects.len(), 4);
            assert!(matches!(
                effects[2],
                Effect::Send(BackendMessage::ReadyForQuery { status: TransactionStatus::Idle })
            ));
            match &effects[3] {
                Effect::CycleEnd(report) => {
                    assert_eq!(report.rows, 1);
                    assert_eq!(report.tag.as_deref(), Some("SELECT 1"));
                    assert_eq!(report.latency, 3);
                    assert!(matches!(report.kind, CycleKind::Simple));
                }
                _ => panic!("no report"),
            }
        }
        _ => panic!("not answered"),
    }
    let (mut pump, _) = ask(TransactionStatus::Idle, simple(), request(&["a"], MergePolicy::Sum));
    let failure = ScatterFailure {
        error: ErrorInfo::new("ERROR", "08006", "shard a failed"),
        session_lease_broken: true,
        session_status: None,
    };
    match pump.on_scattered("SELECT", Err(failure), 0) {
        Step::Wait { effects } => {
            assert!(matches!(effects[0], Effect::Destroy("scatter: session shard failed")));
            assert_eq!(effects.len(), 4);
        }
        _ => panic!("not answered"),
    }
    assert!(pump.lease().is_none());
    assert!(pump.endpoint().is_none());
    assert!(!pump.shown_attached());
}

#[test]
fn legs_run_in_order() {
    let mut g = Gather::new(&request(&["a", "b", "c"], MergePolicy::Concat));
    assert_eq!(g.next_step(2, Some(1)), GatherStep::Wait);
    g.on_pooled(0, "a", leg("n", &["1"]), false);
    assert_eq!(g.next_step(1, Some(1)), GatherStep::Wait);
    g.on_pooled(2, "c", leg("n", &["3"]), false);
    assert_eq!(g.next_step(0, None), GatherStep::Finish);
    assert_eq!(g.next_step(0, Some(1)), GatherStep::RunOwn { leg: 1 });
    g.on_own(1, "b", leg("n", &["2"]), Some(TransactionStatus::Idle));
    assert_eq!(g.next_step(0, Some(1)), GatherStep::Finish);
}

#[test]
fn clients_see_the_shard_error() {
    let mut failed = LegResult::new();
    let error = ErrorInfo {
        fields: vec![
            (b'M', "relation does not exist".to_owned()),
            (b'S', "ERROR".to_owned()),
            (b'C', "42P01".to_owned()),
        ],
    };
    let _ = failed.on_event(UpstreamEvent::Message(BackendMessage::ErrorResponse { error }));
    let mut g = Gather::new(&request(&["a", "b"], MergePolicy::Concat));
    assert!(!g.on_pooled(1, "b", failed, false));
    assert_eq!(g.next_step(1, Some(0)), GatherStep::Finish);
    match g.finish() {
        Err(f) => {
            assert_eq!(f.error.code(), "42P01");
            assert_eq!(f.error.message(), "relation does not exist");
            assert!(!f.session_lease_broken);
        }
        Ok(_) => panic!("merged"),
    }
}

#[test]
fn shard_for_is_consistent() {
    let shards = shard_set(&["a", "b", "c"]);
    let first = shards.shard_for("user-42");
    for _ in 0..10 {
        assert_eq!(shards.shard_for("user-42"), first);
    }
    assert!(["a", "b", "c"].contains(&shards.shard_for("any-key")));
}

#[test]
fn keys_spread_over_the_shards() {
    let shards = shard_set(&["a", "b", "c"]);
    let mut seen: Vec<String> = Vec::new();
    for i in 0..50 {
        let s = shards.shard_for(&format!("key-{i}")).to_owned();
        if !seen.contains(&s) {
            seen.push(s);
        }
    }
    assert_eq!(seen.len(), 3);
    assert_eq!(shards.shard_at(4), "b");
    assert_eq!(shards.shards().len(), 3);
}

#[test]
fn query_cycle_is_shown_to_the_hook() {
    let cycle = QueryCycle::new("select 1".to_owned(), CycleKind::Extended { statement: None });
    assert_eq!(cycle.sql(), "select 1");
    assert!(cycle.kind().is_extended());
}
