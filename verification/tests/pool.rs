//! Pools, leases and bringing connections back to a neutral state.

use pgferry::pool::sanitize::{detach_step, SanitizeEvent, SanitizeStep, Sanitizer};
use pgferry::pool::{
    drain, set_parameter_sql, sync_startup_parameters, Baseline, Candidate, CopyCleanup, DrainStep,
    Hygiene, Pool, PoolConfig, PoolKey, PoolManager, PoolMode, UpstreamLease, TRACKED_STARTUP_PARAMETERS,
};
use pgferry::textmap::TextMap;
use pgferry::time::SECOND;
use pgferry::wire::{BackendMessage, TransactionStatus, UpstreamEvent};

fn key(user: &str) -> PoolKey {
    PoolKey {
        route: "r".to_owned(),
        endpoint: "e".to_owned(),
        user: user.to_owned(),
        database: Some("d".to_owned()),
    }
}

fn pool(max_size: usize) -> Pool<u32> {
    Pool::new(key("u"), PoolConfig { max_size, ..PoolConfig::default() })
}

/// Check a connection out, opening connection `fresh` when there is no idle
/// one.
fn checkout(p: &mut Pool<u32>, fresh: u32, now: u128) -> UpstreamLease<u32> {
    p.start_waiting();
    assert!(p.has_permit());
    p.take_permit();
    match p.next_candidate(now).0 {
        Candidate::Ready { conn, created_at } => p.finish_checkout(conn, created_at, false),
        Candidate::Probe { conn, created_at } => p.finish_checkout(conn, created_at, false),
        Candidate::Connect => p.finish_checkout(fresh, now, true),
    }
}

fn clean() -> Option<TextMap<String>> {
    Some(TextMap::new())
}

#[test]
fn sequential_sessions_reuse_one_upstream() {
    let mut p = pool(16);
    for i in 0..3 {
        let lease = checkout(&mut p, 100 + i, 0);
        assert_eq!(lease.conn, 100);
        assert_eq!(lease.checkin(&mut p, clean(), 0), None);
        assert_eq!(p.idle_len(), 1);
    }
    let m = p.metrics();
    assert_eq!((m.created, m.checkouts, m.checked_in), (1, 3, 3));
    assert_eq!((m.active, m.waiting), (0, 0));
}

#[test]
fn pool_max_size_caps_concurrent_upstreams() {
    let mut p = pool(2);
    let a = checkout(&mut p, 1, 0);
    let b = checkout(&mut p, 2, 0);
    assert!(!p.has_permit());
    p.start_waiting();
    assert_eq!(p.metrics().waiting, 1);
    assert_eq!(p.metrics().active, 2);
    assert_eq!(p.in_use(), (0, 2));
    assert_eq!(a.checkin(&mut p, clean(), 0), None);
    assert!(p.has_permit());
    p.take_permit();
    assert!(matches!(p.next_candidate(0).0, Candidate::Ready { conn: 1, .. }));
    let _ = p.finish_checkout(1, 0, false);
    assert!(!p.has_permit());
    assert_eq!(b.destroy(&mut p), 2);
    assert_eq!(p.metrics().created, 2);
    assert_eq!(p.metrics().dropped, 1);
    // a pool always has room for one
    assert!(pool(0).has_permit());
    assert_eq!(pool(0).max_size(), 0);
    assert_eq!(pool(0).permits(), 1);
}

#[test]
fn checkouts_can_be_given_up() {
    let mut p = pool(1);
    p.start_waiting();
    p.stop_waiting();
    assert_eq!(p.metrics().waiting, 0);
    p.start_waiting();
    p.take_permit();
    assert!(matches!(p.next_candidate(0).0, Candidate::Connect));
    assert!(!p.has_permit());
    p.abandon();
    assert!(p.has_permit());
    assert_eq!((p.metrics().waiting, p.metrics().dropped), (0, 0));
}

#[test]
fn most_recently_parked_comes_first() {
    let mut p = pool(4);
    let a = checkout(&mut p, 1, 0);
    let b = checkout(&mut p, 2, 0);
    a.checkin(&mut p, clean(), 0);
    b.checkin(&mut p, clean(), 0);
    assert_eq!(checkout(&mut p, 9, 0).conn, 2);
    assert_eq!(checkout(&mut p, 9, 0).conn, 1);
    assert_eq!(checkout(&mut p, 9, 0).conn, 9);
}

#[test]
fn stale_connections_are_probed_and_old_ones_closed() {
    let mut p = pool(4);
    let a = checkout(&mut p, 1, 0);
    let b = checkout(&mut p, 2, 0);
    a.checkin(&mut p, clean(), 0);
    b.checkin(&mut p, clean(), 0);
    p.start_waiting();
    p.take_permit();
    assert!(matches!(p.next_candidate(31 * SECOND).0, Candidate::Probe { conn: 2, .. }));
    assert_eq!(p.metrics().probed, 1);
    p.probe_failed();
    assert_eq!(p.metrics().dropped, 1);
    let (candidate, closed) = p.next_candidate(3601 * SECOND);
    assert!(matches!(candidate, Candidate::Connect));
    assert_eq!(closed, vec![1]);
    assert_eq!(p.metrics().evicted, 1);
    p.connect_failed();
    assert_eq!(p.metrics().dropped, 2);
    assert_eq!(p.in_use(), (0, 0));
}

#[test]
fn checkin_drops_what_cannot_be_used_again() {
    let mut p = pool(4);
    match p.baseline_params() {
        Baseline::Probe { checkin } => assert_eq!(checkin, Hygiene::default()),
        Baseline::Known(_) => panic!("a cold pool knows nothing"),
    }
    let a = checkout(&mut p, 1, 0);
    assert_eq!(a.checkin(&mut p, None, 0), Some(1));
    assert_eq!(p.metrics().dropped, 1);
    let b = checkout(&mut p, 2, 0);
    assert_eq!(b.checkin(&mut p, clean(), 3601 * SECOND), Some(2));
    assert_eq!(p.metrics().evicted, 1);
    assert!(matches!(p.baseline_params(), Baseline::Known(_)));
    let c = checkout(&mut p, 3, 0);
    assert_eq!(c.checkin_detached(&mut p, true, false, TextMap::new(), 0), Some(3));
    let d = checkout(&mut p, 4, 0);
    let mut params = TextMap::new();
    params.insert("server_version".to_owned(), "17".to_owned());
    assert_eq!(d.checkin_detached(&mut p, false, false, params, 0), None);
    match p.baseline_params() {
        Baseline::Known(known) => {
            assert_eq!(known.get("server_version").map(|s| s.as_str()), Some("17"));
        }
        Baseline::Probe { .. } => panic!("nothing known"),
    }
    assert_eq!(detach_step(true), SanitizeStep::Discard);
    assert_eq!(detach_step(false), SanitizeStep::Done);
}

#[test]
fn sweep_takes_out_idle_and_old_connections() {
    let mut p = pool(4);
    let a = checkout(&mut p, 1, 0);
    let b = checkout(&mut p, 2, 0);
    let c = checkout(&mut p, 3, 0);
    a.checkin(&mut p, clean(), 0);
    b.checkin(&mut p, clean(), 500 * SECOND);
    c.checkin(&mut p, clean(), 20 * SECOND);
    assert!(p.sweep(600 * SECOND).is_empty());
    assert_eq!(p.sweep(610 * SECOND), vec![1]);
    assert_eq!(p.sweep(700 * SECOND), vec![3]);
    assert_eq!(p.idle_len(), 1);
    assert_eq!(p.metrics().evicted, 2);
}

#[test]
fn manager_keeps_existing_pools() {
    let mut m: PoolManager<u32> = PoolManager::new();
    assert_eq!(m.get_or_create(key("a"), 1), 0);
    assert_eq!(m.get_or_create(key("b"), 2), 1);
    assert_eq!(m.get_or_create(key("a"), 3), 0);
    assert_eq!(m.len(), 2);
    assert_eq!(*m.pool_at(0), 1);
    let mut other = key("a");
    other.database = None;
    assert_eq!(m.get_or_create(other, 4), 2);
}

#[test]
fn defaults() {
    let c = PoolConfig::default();
    assert_eq!(c.mode, PoolMode::Session);
    assert_eq!(c.max_size, 16);
    assert_eq!(c.idle_timeout, 600_000_000_000);
    assert_eq!(c.max_lifetime, 3_600_000_000_000);
    assert_eq!(c.stale_after, 30_000_000_000);
    assert_eq!(c.sweep_interval, 15_000_000_000);
    assert_eq!(TRACKED_STARTUP_PARAMETERS, ["application_name", "client_encoding"]);
    let p = pool(3);
    assert_eq!(p.key().user, "u");
    assert_eq!(p.status().max_size, 3);
}

#[test]
fn parameters_are_quoted() {
    assert_eq!(set_parameter_sql("x", "it's"), "SET x = 'it''s'");
    assert_eq!(set_parameter_sql("x", ""), "SET x = ''");
    let mut startup = TextMap::new();
    startup.insert("client_encoding".to_owned(), "LATIN1".to_owned());
    let current = TextMap::new();
    let p = sync_startup_parameters(&startup, &current, 0).unwrap();
    assert_eq!((p.index, p.name.as_str(), p.value.as_str()), (1, "client_encoding", "LATIN1"));
    assert_eq!(p.sql, "SET client_encoding = 'LATIN1'");
    assert!(sync_startup_parameters(&startup, &current, 2).is_none());
    assert!(sync_startup_parameters(&startup, &startup, 0).is_none());
}

fn walk(hygiene: Hygiene, events: &[SanitizeEvent]) -> Vec<SanitizeStep> {
    let mut s = Sanitizer::new(hygiene);
    let mut steps = vec![s.step()];
    for event in events {
        steps.push(s.on_event(*event));
    }
    steps
}

#[test]
fn clean_session_is_closed_and_reset() {
    let steps = walk(
        Hygiene::default(),
        &[
            SanitizeEvent::Completed,
            SanitizeEvent::Ready(TransactionStatus::Idle),
            SanitizeEvent::Completed,
        ],
    );
    assert_eq!(
        steps,
        vec![SanitizeStep::Sync, SanitizeStep::Drain, SanitizeStep::Discard, SanitizeStep::Done]
    );
}

#[test]
fn running_query_is_canceled_without_a_stray_sync() {
    let busy = Hygiene { awaiting_response: true, copy: CopyCleanup::Inactive };
    let steps = walk(
        busy,
        &[
            SanitizeEvent::Completed,
            SanitizeEvent::Ready(TransactionStatus::Error),
            SanitizeEvent::Completed,
            SanitizeEvent::Completed,
        ],
    );
    assert_eq!(
        steps,
        vec![
            SanitizeStep::Cancel,
            SanitizeStep::DrainBriefly,
            SanitizeStep::Rollback,
            SanitizeStep::Discard,
            SanitizeStep::Done
        ]
    );
    // nothing arrives: only now a Sync
    let steps = walk(busy, &[SanitizeEvent::Broke, SanitizeEvent::TimedOut]);
    assert_eq!(steps[2], SanitizeStep::Sync);
    let steps = walk(busy, &[SanitizeEvent::Completed, SanitizeEvent::Broke]);
    assert_eq!(steps[2], SanitizeStep::Failed);
}

#[test]
fn owed_copy_is_aborted() {
    let owed = Hygiene { awaiting_response: false, copy: CopyCleanup::ClientOwesCopy };
    let steps = walk(owed, &[SanitizeEvent::Completed]);
    assert_eq!(steps, vec![SanitizeStep::FailCopy, SanitizeStep::DrainBriefly]);
    let owed = Hygiene { awaiting_response: true, copy: CopyCleanup::ClientOwesCopy };
    let steps = walk(owed, &[SanitizeEvent::Completed]);
    assert_eq!(steps, vec![SanitizeStep::FailCopy, SanitizeStep::Cancel]);
    let steps = walk(owed, &[SanitizeEvent::Broke]);
    assert_eq!(steps[1], SanitizeStep::Failed);
}

#[test]
fn draining_stops_at_ready() {
    let ready = BackendMessage::ReadyForQuery { status: TransactionStatus::Transaction };
    assert!(matches!(
        drain(UpstreamEvent::Message(ready)),
        DrainStep::Ready(TransactionStatus::Transaction)
    ));
    let ps = BackendMessage::ParameterStatus { name: "a".to_owned(), value: "b".to_owned() };
    match drain(UpstreamEvent::Message(ps)) {
        DrainStep::SetParameter { name, value } => assert_eq!((name, value), ("a".to_owned(), "b".to_owned())),
        _ => panic!("parameter lost"),
    }
    assert!(matches!(
        drain(UpstreamEvent::Message(BackendMessage::ParseComplete)),
        DrainStep::Continue
    ));
    assert!(matches!(drain(UpstreamEvent::Closed), DrainStep::Failed));
}
