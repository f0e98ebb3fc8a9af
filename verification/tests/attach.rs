//! Attaching connections to sessions.

use pgferry::config::{EndpointConfig, RouteConfig, UpstreamTlsConfig};
use pgferry::intercept::{RetryDecision, RoutingInfo, UpstreamError};
use pgferry::routing::{EndpointGroup, FailoverRouter};
use pgferry::session::attach::{
    attempts, Attach, AttachStep, BaselineProbe, ProbeStep, SessionState,
};
use pgferry::session::registry::{ReplayStep, StatementRegistry};
use pgferry::textmap::TextMap;
use pgferry::wire::{BackendMessage, ErrorInfo, FrontendMessage, TransactionStatus, UpstreamEvent};

fn endpoint(id: &str) -> EndpointConfig {
    EndpointConfig { id: id.to_owned(), upstream: "host=x".to_owned(), password: None, tls: None }
}

fn route(ids: &[&str]) -> RouteConfig {
    RouteConfig {
        name: "r".to_owned(),
        endpoints: ids.iter().map(|id| endpoint(id)).collect(),
        password: None,
        tls: UpstreamTlsConfig::default(),
    }
}

fn map(pairs: &[(&str, &str)]) -> TextMap<String> {
    let mut m = TextMap::new();
    for (k, v) in pairs {
        m.insert((*k).to_owned(), (*v).to_owned());
    }
    m
}

fn consulted(step: AttachStep) -> (Option<&'static str>, UpstreamError) {
    match step {
        AttachStep::Consult { destroy, error } => (destroy, error),
        _ => panic!("no consultation"),
    }
}

fn message_of(error: &UpstreamError) -> &str {
    match error {
        UpstreamError::Connect { message, .. } => message,
        UpstreamError::ConnectionLost { message, .. } => message,
    }
}

fn fatal(step: AttachStep) -> String {
    match step {
        AttachStep::Fatal { message } => message,
        _ => panic!("not fatal"),
    }
}

#[test]
fn failover_on_connect_failure() {
    let route = route(&["primary", "secondary"]);
    let group = EndpointGroup::new(vec!["primary".to_owned(), "secondary".to_owned()])
        .with_failure_threshold(1);
    let mut router = FailoverRouter::new(group);
    let empty = map(&[]);
    let registry = StatementRegistry::new();
    let state = SessionState { startup: &empty, overrides: &empty, registry: &registry };
    let (mut attach, step) = Attach::new(&route, state);
    assert!(matches!(step, AttachStep::Route));
    let info = RoutingInfo::new(route.endpoints.as_slice(), "u", None, Some("select 1"));
    let picked = router.upstream(&info, 0);
    assert_eq!(picked, "primary");
    match attach.on_routed(&picked) {
        AttachStep::Checkout { endpoint } => assert_eq!(endpoint, "primary"),
        _ => panic!("no checkout"),
    }
    let (destroy, error) = consulted(attach.on_checkout_failed("connection refused"));
    assert!(destroy.is_none());
    assert_eq!(error.endpoint(), "primary");
    assert_eq!(message_of(&error), "connection refused");
    let decision = router.on_upstream_error(&error, 1);
    assert_eq!(decision, RetryDecision::Relink);
    assert!(matches!(attach.on_decision(Some(decision)), AttachStep::Route));
    let picked = router.upstream(&info, 2);
    assert_eq!(picked, "secondary");
    assert!(matches!(attach.on_routed(&picked), AttachStep::Checkout { .. }));
    match attach.on_checked_out(&map(&[])) {
        AttachStep::Connected { endpoint, dirtied } => {
            assert_eq!(endpoint, "secondary");
            assert!(!dirtied);
        }
        _ => panic!("not connected"),
    }
    router.on_upstream_connected("secondary");
    assert!(!router.group().is_alive("primary", 2));
    assert!(router.group().is_alive("secondary", 2));
}

#[test]
fn session_state_is_put_on_the_connection() {
    let route = route(&["a"]);
    let startup = map(&[("application_name", "it's me"), ("client_encoding", "UTF8"), ("user", "u")]);
    let overrides = map(&[("DateStyle", "ISO"), ("TimeZone", "UTC")]);
    let mut registry = StatementRegistry::new();
    registry.record_parse("s1", "SELECT 1".to_owned(), vec![]);
    let state = SessionState { startup: &startup, overrides: &overrides, registry: &registry };
    let (mut attach, _) = Attach::new(&route, state);
    assert!(matches!(attach.on_routed("a"), AttachStep::Checkout { .. }));
    let mut current = map(&[("client_encoding", "UTF8"), ("TimeZone", "UTC")]);
    match attach.on_checked_out(&current) {
        AttachStep::Run { sql, cache } => {
            assert_eq!(sql, "SET application_name = 'it''s me'");
            let (name, value) = cache.unwrap();
            current.insert(name, value);
        }
        _ => panic!("no statement"),
    }
    match attach.on_set(&current) {
        AttachStep::Run { sql, cache } => {
            assert_eq!(sql, "SET DateStyle = 'ISO'");
            assert!(cache.is_none());
        }
        _ => panic!("no statement"),
    }
    match attach.on_set(&current) {
        AttachStep::Replay { messages } => {
            assert_eq!(messages.len(), 2);
            assert!(matches!(messages[0], FrontendMessage::Parse { .. }));
        }
        _ => panic!("no replay"),
    }
    match attach.on_replayed(true) {
        AttachStep::Connected { endpoint, dirtied } => {
            assert_eq!(endpoint, "a");
            assert!(dirtied);
        }
        _ => panic!("not connected"),
    }
}

#[test]
fn failures_name_their_step() {
    let route = route(&["a"]);
    let startup = map(&[("application_name", "x")]);
    let overrides = map(&[("DateStyle", "ISO")]);
    let mut registry = StatementRegistry::new();
    registry.record_parse("s1", "SELECT 1".to_owned(), vec![]);

    let state = SessionState { startup: &startup, overrides: &overrides, registry: &registry };
    let (mut attach, _) = Attach::new(&route, state);
    attach.on_routed("a");
    attach.on_checked_out(&map(&[]));
    let (destroy, error) = consulted(attach.on_set_failed("oops"));
    assert_eq!(destroy, Some("attach: parameter sync failed"));
    assert_eq!(message_of(&error), "parameter sync: oops");
    assert_eq!(
        fatal(attach.on_decision(Some(RetryDecision::Close))),
        "pgferry: failed to prepare upstream connection: oops"
    );

    let state = SessionState { startup: &startup, overrides: &overrides, registry: &registry };
    let (mut attach, _) = Attach::new(&route, state);
    attach.on_routed("a");
    attach.on_checked_out(&map(&[("application_name", "x")]));
    let (destroy, error) = consulted(attach.on_set_failed("oops"));
    assert_eq!(destroy, Some("attach: GUC replay failed"));
    assert_eq!(message_of(&error), "GUC replay: SET DateStyle");
    assert_eq!(
        fatal(attach.on_decision(Some(RetryDecision::Close))),
        "pgferry: failed to replay session state: SET DateStyle"
    );

    let state = SessionState { startup: &startup, overrides: &overrides, registry: &registry };
    let (mut attach, _) = Attach::new(&route, state);
    attach.on_routed("a");
    attach.on_checked_out(&map(&[("application_name", "x"), ("DateStyle", "ISO")]));
    let (destroy, error) = consulted(attach.on_replayed(false));
    assert_eq!(destroy, Some("attach: statement replay failed"));
    assert_eq!(message_of(&error), "prepared statement replay failed");
    assert_eq!(
        fatal(attach.on_decision(Some(RetryDecision::Close))),
        "pgferry: failed to replay prepared statements"
    );
}

#[test]
fn attempts_run_out() {
    assert_eq!(attempts(0), 2);
    assert_eq!(attempts(1), 2);
    assert_eq!(attempts(3), 6);
    let route = route(&["a"]);
    let empty = map(&[]);
    let registry = StatementRegistry::new();
    let state = SessionState { startup: &empty, overrides: &empty, registry: &registry };
    let (mut attach, _) = Attach::new(&route, state);
    attach.on_routed("a");
    attach.on_checkout_failed("no");
    assert!(matches!(attach.on_decision(None), AttachStep::Route));
    attach.on_routed("a");
    attach.on_checkout_failed("no");
    assert_eq!(fatal(attach.on_decision(None)), "pgferry: all upstream endpoints failed");
}

#[test]
fn unknown_endpoint_is_fatal() {
    let route = route(&["a"]);
    let empty = map(&[]);
    let registry = StatementRegistry::new();
    let state = SessionState { startup: &empty, overrides: &empty, registry: &registry };
    let (mut attach, _) = Attach::new(&route, state);
    assert_eq!(
        fatal(attach.on_routed("no \"such\"")),
        "pgferry: unknown upstream endpoint \"no \\\"such\\\"\""
    );
}

#[test]
fn baseline_probe() {
    let route = route(&["a", "b"]);
    let (mut probe, step) = BaselineProbe::new(&route);
    assert!(matches!(step, ProbeStep::Route));
    assert!(matches!(probe.on_routed("a"), ProbeStep::Probe { .. }));
    match probe.on_probed(Some("refused")) {
        ProbeStep::Consult { error } => assert_eq!(message_of(&error), "refused"),
        _ => panic!("no consultation"),
    }
    assert!(matches!(probe.on_decision(Some(RetryDecision::Relink)), ProbeStep::Route));
    probe.on_routed("b");
    match probe.on_probed(None) {
        ProbeStep::Connected { endpoint } => assert_eq!(endpoint, "b"),
        _ => panic!("not connected"),
    }
    let (mut probe, _) = BaselineProbe::new(&route);
    probe.on_routed("a");
    probe.on_probed(Some("refused"));
    match probe.on_decision(Some(RetryDecision::Close)) {
        ProbeStep::Failed { reason } => assert_eq!(reason, "refused"),
        _ => panic!("not failed"),
    }
    let (mut probe, _) = BaselineProbe::new(&route);
    for _ in 0..3 {
        probe.on_routed("a");
        probe.on_probed(Some("refused"));
        assert!(matches!(probe.on_decision(None), ProbeStep::Route));
    }
    probe.on_routed("a");
    probe.on_probed(Some("refused"));
    match probe.on_decision(None) {
        ProbeStep::Failed { reason } => assert_eq!(reason, "all upstream endpoints failed"),
        _ => panic!("not failed"),
    }
    let (mut probe, _) = BaselineProbe::new(&route);
    match probe.on_routed("z") {
        ProbeStep::Failed { reason } => assert_eq!(reason, "unknown upstream endpoint \"z\""),
        _ => panic!("not failed"),
    }
}

#[test]
fn replay_answers() {
    let ready = BackendMessage::ReadyForQuery { status: TransactionStatus::Idle };
    assert!(matches!(
        StatementRegistry::on_replay(UpstreamEvent::Message(ready)),
        ReplayStep::Done(TransactionStatus::Idle)
    ));
    assert!(matches!(
        StatementRegistry::on_replay(UpstreamEvent::Message(BackendMessage::ParseComplete)),
        ReplayStep::Continue
    ));
    let error = ErrorInfo::new("ERROR", "42P05", "exists");
    assert!(matches!(
        StatementRegistry::on_replay(UpstreamEvent::Message(BackendMessage::ErrorResponse {
            error
        })),
        ReplayStep::Failed
    ));
    assert!(matches!(StatementRegistry::on_replay(UpstreamEvent::Closed), ReplayStep::Failed));
}

#[test]
fn connect_plans_fall_back_to_the_route() {
    let mut r = route(&["a", "b"]);
    r.password = Some("route".to_owned());
    r.endpoints[0].password = Some("own".to_owned());
    let plan = r.connect_plan(&r.endpoints[0], "u", Some("d"));
    assert_eq!(plan.password, Some("own"));
    assert_eq!(plan.connstring, "host=x");
    let plan = r.connect_plan(&r.endpoints[1], "u", None);
    assert_eq!(plan.password, Some("route"));
    assert!(!plan.tls.insecure);
    assert!(r.endpoint("b").is_some());
    assert!(r.endpoint("c").is_none());
}
