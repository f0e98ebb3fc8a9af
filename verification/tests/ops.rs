//! The admin console, metrics, and composing a proxy.

use std::path::PathBuf;

use pgferry::admin::{
    admin_parameters, dispatch, on_downstream, parse_command, AdminCommand, AdminSnapshot,
    AdminStep,
};
use pgferry::config::{ConfigError, RouteConfig, TlsMode, UpstreamTlsConfig};
use pgferry::intercept::DataRowMut;
use pgferry::metrics::{escape, head_complete, respond};
use pgferry::pool::{PoolConfig, PoolKey, PoolMetrics, PoolMode, PoolStatus};
use pgferry::proxy::{Proxy, ProxyBuilder, Service};
use pgferry::runtime::{RuntimeState, SessionInfo};
use pgferry::session::pump::DownstreamEvent;
use pgferry::settings::{
    assemble_route, listen_address, resolve_password, FileEndpoint, FilePool, FileRoute,
};
use pgferry::wire::{BackendMessage, DataRow, FrontendMessage, TransactionStatus};

fn session(pid: i32, database: &str, is_admin: bool) -> SessionInfo {
    SessionInfo {
        pid,
        addr: "127.0.0.1:5000".to_owned(),
        user: "testuser".to_owned(),
        database: database.to_owned(),
        is_admin,
        attached: false,
        started: 0,
    }
}

fn status() -> PoolStatus {
    PoolStatus {
        key: PoolKey {
            route: "default".to_owned(),
            endpoint: "default".to_owned(),
            user: "testuser".to_owned(),
            database: Some("testdb".to_owned()),
        },
        metrics: PoolMetrics { checkouts: 7, active: -1, waiting: 2, ..PoolMetrics::default() },
        idle: 3,
        max_size: 16,
    }
}

fn rows(messages: &[BackendMessage]) -> Vec<String> {
    messages
        .iter()
        .filter_map(|m| match m {
            BackendMessage::DataRow { row } => {
                let copy = DataRow { data: row.data.clone(), field_count: row.field_count };
                let p = match DataRowMut::parse(copy) {
                    Ok(p) => p,
                    Err(_) => panic!("row does not parse"),
                };
                let cols: Vec<String> =
                    (0..p.len()).map(|i| p.text(i).unwrap().unwrap().to_owned()).collect();
                Some(cols.join("|"))
            }
            _ => None,
        })
        .collect()
}

fn is_ready(m: Option<&BackendMessage>) -> bool {
    matches!(m, Some(BackendMessage::ReadyForQuery { status: TransactionStatus::Idle }))
}

#[test]
fn admin_console() {
    let parameters = admin_parameters("0.1.0");
    assert_eq!(parameters.get("server_version").map(|s| s.as_str()), Some("pgferry-0.1.0"));
    assert_eq!(parameters.len(), 7);

    let sessions = vec![session(1, "testdb", false), session(2, "pgferry_admin", true)];
    let pools = vec![status()];
    let connected_for = vec!["0.1".to_owned(), "2.5".to_owned()];
    let shown = AdminSnapshot {
        pools: &pools,
        sessions: sessions.as_slice(),
        connected_for: &connected_for,
    };
    let ask = |sql: &str| dispatch(parse_command(sql), &shown);

    let out = ask("show clients");
    assert!(is_ready(out.last()));
    assert_eq!(
        rows(&out),
        vec![
            "1|127.0.0.1:5000|testuser|testdb|client|idle|0.1".to_owned(),
            "2|127.0.0.1:5000|testuser|pgferry_admin|admin|idle|2.5".to_owned()
        ]
    );
    let out = ask("  SHOW Pools ;; ");
    assert_eq!(rows(&out), vec!["testdb|testuser|default|1|2|-1|3|16".to_owned()]);
    match &out[0] {
        BackendMessage::RowDescription { fields } => {
            assert_eq!(fields.len(), 8);
            assert_eq!(fields[3].name, "cl_active");
            assert_eq!(fields[3].type_id, 25);
        }
        _ => panic!("no description"),
    }
    let out = ask("show stats");
    assert_eq!(rows(&out), vec!["testdb|testuser|7|0|0|0|0|0|0".to_owned()]);

    let out = ask("drop table nope");
    match &out[0] {
        BackendMessage::ErrorResponse { error } => {
            assert_eq!(error.code(), "42601");
            assert_eq!(
                error.message(),
                "unknown admin command \"drop table nope\"; supported: SHOW POOLS | SHOW CLIENTS | SHOW STATS | SHOW HELP"
            );
        }
        _ => panic!("no error"),
    }
    assert!(is_ready(out.last()));
    let out = ask("show help");
    assert_eq!(rows(&out).len(), 4);
    assert_eq!(rows(&out)[0], "SHOW POOLS");
    match &out[out.len() - 2] {
        BackendMessage::CommandComplete { tag } => assert_eq!(tag, "SHOW 4"),
        _ => panic!("no tag"),
    }
    assert!(matches!(parse_command("HELP"), AdminCommand::Help));
}

#[test]
fn admin_console_speaks_the_simple_protocol() {
    let event = |m: FrontendMessage| on_downstream(DownstreamEvent::Message(m));
    assert!(matches!(event(FrontendMessage::Terminate), AdminStep::End));
    assert!(matches!(on_downstream(DownstreamEvent::Closed), AdminStep::End));
    match event(FrontendMessage::Sync) {
        AdminStep::Send(out) => assert!(out.len() == 1 && is_ready(out.last())),
        _ => panic!("no answer"),
    }
    match event(FrontendMessage::Query { sql: "x".to_owned() }) {
        AdminStep::Answer(sql) => assert_eq!(sql, "x"),
        _ => panic!("no answer"),
    }
    match event(FrontendMessage::Flush) {
        AdminStep::Send(out) => {
            match &out[0] {
                BackendMessage::ErrorResponse { error } => assert_eq!(error.code(), "0A000"),
                _ => panic!("no error"),
            }
            assert!(is_ready(out.last()));
        }
        _ => panic!("no answer"),
    }
}

#[test]
fn metrics_endpoint() {
    let pools = vec![status()];
    let request = b"GET /metrics HTTP/1.1\r\nHost: x\r\nConnection: close\r\n\r\n".to_vec();
    assert!(head_complete(&request));
    let body = respond(&request, 1, 5, &pools);
    assert!(body.starts_with("HTTP/1.1 200"), "{body}");
    assert!(body.contains("pgferry_sessions_active 1\n"), "{body}");
    assert!(body.contains("pgferry_sessions_total 5\n"), "{body}");
    assert!(
        body.contains(
            "# TYPE pgferry_pool_checkouts_total counter\npgferry_pool_checkouts_total{route=\"default\",user=\"testuser\",database=\"testdb\"} 7\n"
        ),
        "{body}"
    );
    assert!(body.contains("pgferry_pool_connections_idle{"), "{body}");
    assert!(body.contains("pgferry_pool_connections_active{route=\"default\",user=\"testuser\",database=\"testdb\"} -1\n"));
    let (head, content) = body.split_once("\r\n\r\n").unwrap();
    assert!(head.contains(&format!("Content-Length: {}", content.len())));

    let request = b"GET /nope HTTP/1.1\r\nHost: x\r\n\r\n".to_vec();
    let body = respond(&request, 0, 0, &pools);
    assert!(body.starts_with("HTTP/1.1 404"), "{body}");
    assert!(body.ends_with("\r\n\r\nnot found\n"));
    let body = respond(&b"GET /metrics \xff".to_vec(), 0, 0, &pools);
    assert!(body.starts_with("HTTP/1.1 200"));
    let body = respond(&b"GET /metrics\xff x".to_vec(), 0, 0, &pools);
    assert!(body.starts_with("HTTP/1.1 404"));
    assert!(!head_complete(&b"GET / HTTP/1.1\r\n".to_vec()));
    assert!(!head_complete(&vec![b'x'; 16384]));
    assert!(head_complete(&vec![b'x'; 16385]));
}

#[test]
fn labels_are_escaped() {
    assert_eq!(escape("a\\b\"c\nd"), "a\\\\b\\\"c\\nd");
    assert_eq!(escape("plain"), "plain");
}

#[test]
fn sessions_come_and_go() {
    let mut r = RuntimeState::new();
    r.register(session(1, "a", false));
    r.register(session(2, "b", false));
    assert_eq!(r.sessions_active(), 2);
    r.set_attached(2, true);
    assert!(!r.sessions()[0].attached);
    assert!(r.sessions()[1].attached);
    r.unregister(1);
    assert_eq!(r.sessions_active(), 1);
    assert_eq!(r.sessions()[0].pid, 2);
    assert_eq!(r.sessions_total(), 2);
    r.unregister(9);
    assert_eq!(r.sessions_active(), 1);
}

fn builder() -> ProxyBuilder<u8> {
    Proxy::builder()
}

fn built(b: ProxyBuilder<u8>) -> Proxy<u8> {
    match b.build() {
        Ok(p) => p,
        Err(_) => panic!("not built"),
    }
}

#[test]
fn builder_defaults() {
    let p = built(
        builder().listen("127.0.0.1:0", None).ok().unwrap().upstream("host=x".to_owned()),
    );
    let c = p.config();
    assert_eq!(c.listen_addr, "127.0.0.1:0");
    assert_eq!(c.max_client_conn, 128);
    assert_eq!(c.shutdown_drain, 30_000_000_000);
    assert_eq!(c.pool, PoolConfig::default());
    assert_eq!(c.route.name, "default");
    assert_eq!(c.route.endpoints[0].id, "default");
    assert_eq!(c.route.endpoints[0].upstream, "host=x");
    assert!(c.admin_database.is_none() && c.metrics_addr.is_none() && c.tls_server.is_none());
    assert!(matches!(p.service, Service::Plain));
}

#[test]
fn builder_settings() {
    let b = builder()
        .listen("127.0.0.1:1", None)
        .ok()
        .unwrap()
        .upstream("host=x".to_owned())
        .endpoint("primary".to_owned(), "host=p".to_owned())
        .endpoint("replica".to_owned(), "host=r".to_owned())
        .password("secret".to_owned())
        .password_env(None)
        .max_client_conn(5)
        .admin_database("adm".to_owned())
        .metrics_addr("127.0.0.1:2", None)
        .ok()
        .unwrap()
        .tls_server(PathBuf::from("c.pem"), PathBuf::from("k.pem"))
        .shutdown_drain(7)
        .pool_config(PoolConfig { mode: PoolMode::Transaction, ..PoolConfig::default() });
    let p = built(b);
    let ids: Vec<&str> = p.config.route.endpoints.iter().map(|e| e.id.as_str()).collect();
    assert_eq!(ids, vec!["primary", "replica"]);
    assert_eq!(p.config.route.password.as_deref(), Some("secret"));
    assert_eq!(p.config.max_client_conn, 5);
    assert_eq!(p.config.admin_database.as_deref(), Some("adm"));
    assert_eq!(p.config.metrics_addr.as_deref(), Some("127.0.0.1:2"));
    assert_eq!(p.config.shutdown_drain, 7);
    assert_eq!(p.config.pool.mode, PoolMode::Transaction);
    assert_eq!(p.config.tls_server.as_ref().unwrap().cert, PathBuf::from("c.pem"));
    match &p.service {
        Service::Failover(f) => assert!(f.group().is_alive("primary", 0)),
        _ => panic!("no failover"),
    }
    let b = builder()
        .listen("127.0.0.1:1", None)
        .ok()
        .unwrap()
        .endpoint("a".to_owned(), String::new())
        .endpoint("b".to_owned(), String::new())
        .service(9);
    assert!(matches!(built(b).service, Service::Custom(9)));
    assert!(builder().password("x".to_owned()).route.is_none());
}

fn endpoint_ids(b: &ProxyBuilder<u8>) -> Vec<String> {
    b.route.as_ref().unwrap().endpoints.iter().map(|e| e.id.clone()).collect()
}

#[test]
fn only_the_implicit_endpoint_is_replaced() {
    let named = builder()
        .endpoint("default".to_owned(), "host=d".to_owned())
        .endpoint("replica".to_owned(), "host=r".to_owned());
    assert_eq!(endpoint_ids(&named), vec!["default", "replica"]);
    let replaced = builder()
        .upstream("host=x".to_owned())
        .endpoint("default".to_owned(), "host=d".to_owned())
        .endpoint("replica".to_owned(), "host=r".to_owned());
    assert_eq!(endpoint_ids(&replaced), vec!["default", "replica"]);
    assert_eq!(replaced.route.as_ref().unwrap().endpoints[0].upstream, "host=d");
    let whole = builder().upstream("host=x".to_owned()).route(named.route.clone().unwrap());
    assert_eq!(endpoint_ids(&whole), vec!["default", "replica"]);
    let single = builder()
        .route(builder().endpoint("default".to_owned(), "host=d".to_owned()).route.unwrap())
        .endpoint("replica".to_owned(), "host=r".to_owned());
    assert_eq!(endpoint_ids(&single), vec!["default", "replica"]);
}

fn failure(b: ProxyBuilder<u8>) -> String {
    match b.build() {
        Ok(_) => panic!("built"),
        Err(e) => e.message(),
    }
}

#[test]
fn builder_errors() {
    assert_eq!(failure(builder()), "missing required configuration: listen");
    let b = builder().listen("127.0.0.1:0", None).ok().unwrap();
    assert_eq!(failure(b), "missing required configuration: upstream");
    match builder().listen("nope", Some("invalid socket address syntax".to_owned())) {
        Err(e) => assert_eq!(
            e.message(),
            "invalid listen address \"nope\": invalid socket address syntax"
        ),
        Ok(_) => panic!("accepted"),
    }
    assert_eq!(ConfigError::Tls("bad".to_owned()).message(), "invalid TLS configuration: bad");
    assert!(builder().metrics_addr("x", Some("y".to_owned())).is_err());
}

#[test]
fn tls_modes() {
    let ca = Some(PathBuf::from("ca.pem"));
    assert!(matches!(UpstreamTlsConfig::default().mode(), TlsMode::Plain));
    assert!(matches!(
        UpstreamTlsConfig { ca: ca.clone(), insecure: true }.mode(),
        TlsMode::Unverified
    ));
    assert!(matches!(UpstreamTlsConfig { ca, insecure: false }.mode(), TlsMode::Verified(_)));
}

fn file_route() -> FileRoute {
    FileRoute {
        name: Some("main".to_owned()),
        upstream: Some("host=file".to_owned()),
        endpoints: Vec::new(),
        password: None,
        password_env: Some("VAR".to_owned()),
        tls_ca: Some(PathBuf::from("ca.pem")),
        tls_insecure: None,
    }
}

#[test]
fn file_pool_settings() {
    let (c, unknown) = FilePool {
        mode: Some("transaction".to_owned()),
        max_size: Some(3),
        idle_timeout_secs: Some(1),
        max_lifetime_secs: None,
        stale_after_secs: Some(0),
        sweep_interval_secs: None,
    }
    .into_config();
    assert_eq!(c.mode, PoolMode::Transaction);
    assert_eq!((c.max_size, c.idle_timeout, c.stale_after), (3, 1_000_000_000, 0));
    assert_eq!(c.max_lifetime, PoolConfig::default().max_lifetime);
    assert!(unknown.is_none());
    let (c, unknown) = FilePool {
        mode: Some("odd".to_owned()),
        max_size: None,
        idle_timeout_secs: None,
        max_lifetime_secs: None,
        stale_after_secs: None,
        sweep_interval_secs: None,
    }
    .into_config();
    assert_eq!(c, PoolConfig::default());
    assert_eq!(unknown.as_deref(), Some("odd"));
}

fn shown(r: &RouteConfig) -> (String, String, Option<String>) {
    (r.name.clone(), r.endpoints[0].upstream.clone(), r.password.clone())
}

#[test]
fn routes_are_assembled() {
    let file = Some(file_route());
    let r = assemble_route(&file, None, None, Some("env".to_owned()));
    assert_eq!(shown(&r), ("main".to_owned(), "host=file".to_owned(), Some("env".to_owned())));
    assert_eq!(r.tls.ca, Some(PathBuf::from("ca.pem")));
    assert!(!r.tls.insecure);
    let r = assemble_route(&file, Some("host=cli".to_owned()), Some("cli".to_owned()), None);
    assert_eq!(shown(&r), ("main".to_owned(), "host=cli".to_owned(), Some("cli".to_owned())));
    let r = assemble_route(&None, Some("host=cli".to_owned()), Some("cli".to_owned()), None);
    assert_eq!(shown(&r), ("default".to_owned(), "host=cli".to_owned(), Some("cli".to_owned())));
    let mut named = file_route();
    named.endpoints.push(FileEndpoint {
        id: "p".to_owned(),
        upstream: "host=p".to_owned(),
        password: Some("own".to_owned()),
    });
    named.tls_insecure = Some(true);
    let r = assemble_route(&Some(named), Some("host=cli".to_owned()), None, None);
    assert_eq!(r.endpoints.len(), 1);
    assert_eq!(r.endpoints[0].id, "p");
    assert_eq!(r.endpoints[0].password.as_deref(), Some("own"));
    assert!(r.tls.insecure);
    let mut f = file_route();
    f.password = Some("file".to_owned());
    assert_eq!(resolve_password(&f, None, Some("env".to_owned())).as_deref(), Some("file"));
    assert_eq!(
        listen_address(None, Some("file".to_owned())).as_deref(),
        Some("file")
    );
    assert_eq!(
        listen_address(Some("cli".to_owned()), Some("file".to_owned())).as_deref(),
        Some("cli")
    );
    assert!(listen_address(None, None).is_none());
}
