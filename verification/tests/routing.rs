//! Endpoint health, read/write splitting, and cancel routing.

use pgferry::cancel::CancelRouter;
use pgferry::config::EndpointConfig;
use pgferry::intercept::{RetryDecision, RoutingInfo, UpstreamError};
use pgferry::routing::{default_is_read, EndpointGroup, FailoverRouter, ReadPreference, RwSplit};
use pgferry::time::SECOND;

fn endpoints(ids: &[&str]) -> Vec<EndpointConfig> {
    ids.iter()
        .map(|id| EndpointConfig {
            id: (*id).to_owned(),
            upstream: String::new(),
            password: None,
            tls: None,
        })
        .collect()
}

fn group(ids: &[&str]) -> EndpointGroup {
    EndpointGroup::new(ids.iter().map(|s| (*s).to_owned()).collect())
}

#[test]
fn endpoints_die_and_revive() {
    let mut g = group(&["a", "b"]);
    assert!(g.is_alive("a", 0));
    g.report_failure("a", 0);
    assert!(g.is_alive("a", 0));
    g.report_failure("a", SECOND);
    assert!(!g.is_alive("a", 30 * SECOND));
    assert!(g.is_alive("a", 31 * SECOND));
    // another failure starts the cooldown anew
    g.report_failure("a", 31 * SECOND);
    assert!(!g.is_alive("a", 32 * SECOND));
    g.report_success("a");
    assert!(g.is_alive("a", 32 * SECOND));
    assert!(g.is_alive("untracked", 0));
    g.report_success("b");
    let mut strict = group(&["a"]).with_failure_threshold(0).with_revive_after(5);
    strict.report_failure("a", 0);
    assert!(!strict.is_alive("a", 4));
    assert!(strict.is_alive("a", 5));
}

#[test]
fn selection_skips_the_dead() {
    let es = endpoints(&["a", "b", "c"]);
    let info = RoutingInfo::new(es.as_slice(), "u", Some("d"), None);
    let mut g = EndpointGroup::from_endpoints(es.as_slice()).with_failure_threshold(1);
    assert_eq!(g.select_first_alive(&info, 0).as_deref(), Some("a"));
    g.report_failure("a", 0);
    assert_eq!(g.select_first_alive(&info, 0).as_deref(), Some("b"));
    assert_eq!(g.select_round_robin(&info, 0, 0).as_deref(), Some("b"));
    assert_eq!(g.select_round_robin(&info, 1, 0).as_deref(), Some("c"));
    assert_eq!(g.select_round_robin(&info, 2, 0).as_deref(), Some("b"));
    g.report_failure("b", 0);
    g.report_failure("c", 0);
    assert_eq!(g.select_first_alive(&info, 0), None);
    assert_eq!(g.select_round_robin(&info, 7, 0), None);
    let router = FailoverRouter::new(g);
    assert_eq!(router.upstream(&info, 0), "a");
    assert_eq!(info.default_endpoint(), "a");
    assert!(info.endpoint("c").is_some());
    assert!(info.endpoint("z").is_none());
    assert_eq!(info.sql(), None);
    let none: Vec<EndpointConfig> = Vec::new();
    assert_eq!(RoutingInfo::new(none.as_slice(), "u", None, None).default_endpoint(), "");
}

#[test]
fn failover_router_counts_failures() {
    let es = endpoints(&["a", "b"]);
    let info = RoutingInfo::new(es.as_slice(), "u", None, None);
    let mut router = FailoverRouter::from_endpoints(es.as_slice());
    let lost = UpstreamError::ConnectionLost { endpoint: "a".to_owned(), message: "x".to_owned() };
    assert_eq!(router.on_upstream_error(&lost, 0), RetryDecision::Relink);
    assert_eq!(router.upstream(&info, 0), "a");
    router.on_upstream_error(&lost, 0);
    assert_eq!(router.upstream(&info, 0), "b");
    router.on_upstream_connected("a");
    assert_eq!(router.upstream(&info, 0), "a");
}

#[test]
fn rw_split_routing() {
    let es = endpoints(&["primary", "replica"]);
    let info = RoutingInfo::new(es.as_slice(), "u", None, None);
    let mut rw = RwSplit::new(group(&["primary", "replica"]), "primary".to_owned())
        .with_read_preference(ReadPreference::ReplicaFirst);
    assert_eq!(rw.route_sql(&info, "select 'read'", 0), "replica");
    assert_eq!(rw.route_sql(&info, "insert into t values (1)", 0), "primary");
    assert_eq!(rw.route(&info, false, 0), "primary");
    rw.report_failure("replica", 0);
    rw.report_failure("replica", 0);
    assert_eq!(rw.route(&info, true, 0), "primary");
    rw.report_success("replica");
    assert_eq!(rw.route(&info, true, 0), "replica");
    let fixed = rw.with_read_preference(ReadPreference::PrimaryOnly);
    assert_eq!(fixed.route_sql(&info, "select 1", 0), "primary");
    let custom = RwSplit::new(group(&["primary", "replica"]), "primary".to_owned())
        .with_classifier(|sql: &str| sql.contains("read-only"));
    assert_eq!(custom.route_sql(&info, "call x() -- read-only", 0), "replica");
    assert_eq!(custom.route_sql(&info, "select 1", 0), "primary");
    assert!(custom.group().is_alive("replica", 0));
}

#[test]
fn leading_keywords() {
    assert!(default_is_read("select 1"));
    assert!(default_is_read("  SeLeCt(1)"));
    assert!(default_is_read("(select 1)"));
    assert!(default_is_read("show all"));
    assert!(default_is_read("table t"));
    assert!(default_is_read("-- hint\nselect 1"));
    assert!(default_is_read("/* a */ /* b */\n-- c\n  select 1"));
    assert!(default_is_read("/***/select 1"));
    assert!(!default_is_read("- select 1"));
    assert!(!default_is_read("selects 1"));
    assert!(!default_is_read("update t set x = 1"));
    assert!(!default_is_read(""));
    assert!(!default_is_read("/* select"));
    assert!(!default_is_read("-- select 1"));
    assert!(!default_is_read("with x as (select 1) delete from t"));
}

#[test]
fn cancels_reach_their_session() {
    let mut router: CancelRouter<&'static str> = CancelRouter::new();
    assert!(router.cancel(1, &[1, 2]).is_none());
    router.register(1, vec![1, 2], "a");
    router.register(2, vec![1, 2], "b");
    router.register(1, vec![9], "c");
    assert_eq!(router.cancel(1, &[1, 2]), Some(&"a"));
    assert_eq!(router.cancel(2, &[1, 2]), Some(&"b"));
    assert_eq!(router.cancel(1, &[9]), Some(&"c"));
    assert!(router.cancel(1, &[1]).is_none());
    router.register(1, vec![1, 2], "d");
    assert_eq!(router.cancel(1, &[1, 2]), Some(&"d"));
    router.unregister(1, &[1, 2]);
    assert!(router.cancel(1, &[1, 2]).is_none());
    assert_eq!(router.cancel(2, &[1, 2]), Some(&"b"));
    router.unregister(5, &[5]);
    assert_eq!(router.cancel(1, &[9]), Some(&"c"));
}
