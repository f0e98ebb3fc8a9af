//! Composing a proxy.

use std::path::PathBuf;

use vstd::prelude::*;

use crate::config;
use crate::config::{
    ConfigError, EndpointConfig, RouteConfig, ServerTlsConfig, UpstreamTlsConfig,
};
use crate::pool::PoolConfig;
use crate::routing::FailoverRouter;
use crate::time::Nanos;

verus! {

/// Cap on concurrent sessions, unless configured.
pub const DEFAULT_MAX_CLIENT_CONN: usize = 128;

/// Drain window of a graceful shutdown, unless configured: 30 seconds.
pub const DEFAULT_SHUTDOWN_DRAIN: Nanos = 30_000_000_000;

/// Top-level proxy configuration.
#[derive(Debug, Clone)]
pub struct ProxyConfig {
    pub listen_addr: String,
    pub route: RouteConfig,
    /// Upstream pool tuning.
    pub pool: PoolConfig,
    /// Cap on concurrent downstream sessions.
    pub max_client_conn: usize,
    /// When set, clients whose startup database matches get the admin console
    /// instead of an upstream connection.
    pub admin_database: Option<String>,
    /// Address of the metrics endpoint.
    pub metrics_addr: Option<String>,
    /// Downstream TLS termination.
    pub tls_server: Option<ServerTlsConfig>,
    /// How long graceful shutdown waits for sessions to drain before
    /// aborting them.
    pub shutdown_drain: Nanos,
}

/// What the sessions of a proxy are handed to. `I` is whatever stands for an
/// interceptor.
pub enum Service<I> {
    /// An interceptor of the user's.
    Custom(I),
    /// The built-in failover routing.
    Failover(FailoverRouter),
    /// Nothing: sessions pass through.
    Plain,
}

/// A configured, not yet running proxy.
pub struct Proxy<I> {
    pub config: ProxyConfig,
    pub service: Service<I>,
}

/// Builder for [`Proxy`].
#[derive(Clone)]
pub struct ProxyBuilder<I> {
    pub listen_addr: Option<String>,
    pub route: Option<RouteConfig>,
    /// Whether the route's endpoint is the implicit one of
    /// [`ProxyBuilder::upstream`].
    pub implicit_endpoint: bool,
    pub pool_config: Option<PoolConfig>,
    pub max_client_conn: usize,
    pub interceptor: Option<I>,
    pub admin_database: Option<String>,
    pub metrics_addr: Option<String>,
    pub tls_server: Option<ServerTlsConfig>,
    pub shutdown_drain: Option<Nanos>,
}

/// An endpoint with nothing but its id and connection string.
pub open spec fn is_bare_endpoint(e: EndpointConfig, id: Seq<char>, connstring: Seq<char>) -> bool {
    e.id@ == id && e.upstream@ == connstring && e.password is None && e.tls is None
}

/// A route named `default` with one bare endpoint.
pub open spec fn is_bare_route(r: RouteConfig, id: Seq<char>, connstring: Seq<char>) -> bool {
    &&& r.name@ == "default"@
    &&& r.endpoints@.len() == 1
    &&& is_bare_endpoint(r.endpoints@[0], id, connstring)
    &&& r.password is None
    &&& r.tls.ca is None
    &&& !r.tls.insecure
}

fn bare_route(id: String, connstring: String) -> (r: RouteConfig)
    ensures
        is_bare_route(r, id@, connstring@),
{
    let mut endpoints: Vec<EndpointConfig> = Vec::new();
    endpoints.push(EndpointConfig { id, upstream: connstring, password: None, tls: None });
    RouteConfig {
        name: "default".to_owned(),
        endpoints,
        password: None,
        tls: UpstreamTlsConfig::default(),
    }
}

impl<I> Proxy<I> {
    /// Start to compose a proxy.
    pub fn builder() -> (b: ProxyBuilder<I>)
        ensures
            b == ProxyBuilder::<I>::empty(),
    {
        ProxyBuilder {
            listen_addr: None,
            route: None,
            implicit_endpoint: false,
            pool_config: None,
            max_client_conn: 0,
            interceptor: None,
            admin_database: None,
            metrics_addr: None,
            tls_server: None,
            shutdown_drain: None,
        }
    }

    /// The proxy's configuration.
    pub fn config(&self) -> (r: &ProxyConfig)
        ensures
            *r == self.config,
    {
        &self.config
    }
}

impl<I> ProxyBuilder<I> {
    /// Nothing configured.
    pub open spec fn empty() -> ProxyBuilder<I> {
        ProxyBuilder {
            listen_addr: None,
            route: None,
            implicit_endpoint: false,
            pool_config: None,
            max_client_conn: 0,
            interceptor: None,
            admin_database: None,
            metrics_addr: None,
            tls_server: None,
            shutdown_drain: None,
        }
    }

    /// Listen address, e.g. `"127.0.0.1:6432"` (port 0 for an ephemeral
    /// port). `refusal` says why it is not an address, if it is not.
    pub fn listen(self, addr: &str, refusal: Option<String>) -> (r: Result<Self, ConfigError>)
        ensures
            match refusal {
                Some(reason) => r matches Err(ConfigError::ListenAddr(a, why)) && a@ == addr@
                    && why == reason,
                None => r matches Ok(b) && b.listen_addr is Some && b.listen_addr->0@ == addr@ && b
                    == (ProxyBuilder { listen_addr: b.listen_addr, ..self }),
            },
    {
        match refusal {
            Some(reason) => Err(ConfigError::ListenAddr(addr.to_owned(), reason)),
            None => Ok(ProxyBuilder { listen_addr: Some(addr.to_owned()), ..self }),
        }
    }

    /// Register the interceptor.
    pub fn service(self, interceptor: I) -> (b: Self)
        ensures
            b == (ProxyBuilder { interceptor: Some(interceptor), ..self }),
    {
        ProxyBuilder { interceptor: Some(interceptor), ..self }
    }

    /// Set the whole route at once.
    pub fn route(self, route: RouteConfig) -> (b: Self)
        ensures
            b == (ProxyBuilder { route: Some(route), implicit_endpoint: false, ..self }),
    {
        ProxyBuilder { route: Some(route), implicit_endpoint: false, ..self }
    }

    /// Set the route's upstream connection string, e.g.
    /// `"host=127.0.0.1 port=5432"` (a single default endpoint).
    pub fn upstream(self, connstring: String) -> (b: Self)
        ensures
            b.route matches Some(r) && is_bare_route(r, "default"@, connstring@),
            b == (ProxyBuilder { route: b.route, implicit_endpoint: true, ..self }),
    {
        ProxyBuilder {
            route: Some(bare_route("default".to_owned(), connstring)),
            implicit_endpoint: true,
            ..self
        }
    }

    /// Whether a builder is this one with one more endpoint.
    pub open spec fn gains_endpoint(
        self,
        id: Seq<char>,
        connstring: Seq<char>,
        b: ProxyBuilder<I>,
    ) -> bool {
        &&& b == (ProxyBuilder { route: b.route, implicit_endpoint: false, ..self })
        &&& match self.route {
            None => b.route matches Some(r) && is_bare_route(r, id, connstring),
            Some(before) => {
                &&& b.route matches Some(r)
                &&& r == (RouteConfig { endpoints: r.endpoints, ..before })
                &&& r.endpoints@.len() > 0
                &&& is_bare_endpoint(r.endpoints@.last(), id, connstring)
                &&& r.endpoints@.drop_last() == (if self.implicit_endpoint {
                    Seq::empty()
                } else {
                    before.endpoints@
                })
            },
        }
    }

    /// Add a named upstream endpoint (several enable routing and failover;
    /// the first added is the default target). The implicit endpoint of
    /// [`ProxyBuilder::upstream`] is replaced, and no other.
    pub fn endpoint(self, id: String, connstring: String) -> (b: Self)
        ensures
            self.gains_endpoint(id@, connstring@, b),
    {
        let route = match self.route {
            None => bare_route(id, connstring),
            Some(before) => {
                let endpoint = EndpointConfig {
                    id,
                    upstream: connstring,
                    password: None,
                    tls: None,
                };
                let mut endpoints: Vec<EndpointConfig> = if self.implicit_endpoint {
                    Vec::new()
                } else {
                    before.endpoints
                };
                let ghost kept = endpoints@;
                endpoints.push(endpoint);
                assert(endpoints@.drop_last() =~= kept);
                RouteConfig {
                    name: before.name,
                    endpoints,
                    password: before.password,
                    tls: before.tls,
                }
            },
        };
        ProxyBuilder { route: Some(route), implicit_endpoint: false, ..self }
    }

    /// Upstream password. Without a route there is nothing to set it on.
    pub fn password(self, password: String) -> (b: Self)
        ensures
            b == (ProxyBuilder {
                route: match self.route {
                    Some(r) => Some(RouteConfig { password: Some(password), ..r }),
                    None => None,
                },
                ..self
            }),
    {
        let route = match self.route {
            Some(r) => Some(
                RouteConfig {
                    name: r.name,
                    endpoints: r.endpoints,
                    password: Some(password),
                    tls: r.tls,
                },
            ),
            None => None,
        };
        ProxyBuilder { route, ..self }
    }

    /// Upstream password from the value of an environment variable; nothing
    /// changes when the variable is not set.
    pub fn password_env(self, value: Option<String>) -> (b: Self)
        ensures
            b == (match value {
                Some(password) => ProxyBuilder {
                    route: match self.route {
                        Some(r) => Some(RouteConfig { password: Some(password), ..r }),
                        None => None,
                    },
                    ..self
                },
                None => self,
            }),
    {
        match value {
            Some(password) => self.password(password),
            None => self,
        }
    }

    /// Pool tuning (sizes, timeouts).
    pub fn pool_config(self, config: PoolConfig) -> (b: Self)
        ensures
            b == (ProxyBuilder { pool_config: Some(config), ..self }),
    {
        ProxyBuilder { pool_config: Some(config), ..self }
    }

    /// Cap on concurrent client sessions (default 128).
    pub fn max_client_conn(self, max: usize) -> (b: Self)
        ensures
            b == (ProxyBuilder { max_client_conn: max, ..self }),
    {
        ProxyBuilder { max_client_conn: max, ..self }
    }

    /// Admin console: clients whose startup database matches this name are
    /// answered locally.
    pub fn admin_database(self, name: String) -> (b: Self)
        ensures
            b == (ProxyBuilder { admin_database: Some(name), ..self }),
    {
        ProxyBuilder { admin_database: Some(name), ..self }
    }

    /// Address of the metrics endpoint. `refusal` says why it is not an
    /// address, if it is not.
    pub fn metrics_addr(self, addr: &str, refusal: Option<String>) -> (r: Result<
        Self,
        ConfigError,
    >)
        ensures
            match refusal {
                Some(reason) => r matches Err(ConfigError::ListenAddr(a, why)) && a@ == addr@
                    && why == reason,
                None => r matches Ok(b) && b.metrics_addr is Some && b.metrics_addr->0@ == addr@
                    && b == (ProxyBuilder { metrics_addr: b.metrics_addr, ..self }),
            },
    {
        match refusal {
            Some(reason) => Err(ConfigError::ListenAddr(addr.to_owned(), reason)),
            None => Ok(ProxyBuilder { metrics_addr: Some(addr.to_owned()), ..self }),
        }
    }

    /// Downstream TLS termination (PEM certificate chain and key paths).
    pub fn tls_server(self, cert: PathBuf, key: PathBuf) -> (b: Self)
        ensures
            b == (ProxyBuilder { tls_server: Some(ServerTlsConfig { cert, key }), ..self }),
    {
        ProxyBuilder { tls_server: Some(ServerTlsConfig { cert, key }), ..self }
    }

    /// Drain window of a graceful shutdown (default 30 seconds).
    pub fn shutdown_drain(self, drain: Nanos) -> (b: Self)
        ensures
            b == (ProxyBuilder { shutdown_drain: Some(drain), ..self }),
    {
        ProxyBuilder { shutdown_drain: Some(drain), ..self }
    }

    /// Whether this is what the builder builds.
    pub open spec fn builds(self, r: Result<Proxy<I>, ConfigError>) -> bool {
        match (self.listen_addr, self.route) {
            (None, _) => r matches Err(ConfigError::Missing(what)) && what@ == "listen"@,
            (Some(_), None) => r matches Err(ConfigError::Missing(what)) && what@
                == "upstream"@,
            (Some(addr), Some(route)) => {
                &&& r matches Ok(p)
                &&& p.config.listen_addr == addr
                &&& p.config.route == route
                &&& p.config.pool == (match self.pool_config {
                    Some(c) => c,
                    None => default_pool_config(),
                })
                &&& p.config.max_client_conn == (if self.max_client_conn == 0 {
                    DEFAULT_MAX_CLIENT_CONN
                } else {
                    self.max_client_conn
                })
                &&& p.config.admin_database == self.admin_database
                &&& p.config.metrics_addr == self.metrics_addr
                &&& p.config.tls_server == self.tls_server
                &&& p.config.shutdown_drain == (match self.shutdown_drain {
                    Some(d) => d,
                    None => DEFAULT_SHUTDOWN_DRAIN,
                })
                &&& match self.interceptor {
                    Some(i) => p.service == Service::Custom(i),
                    None => if route.endpoints@.len() > 1 {
                        &&& p.service matches Service::Failover(f)
                        &&& f@.fresh(config::endpoint_ids(route.endpoints@))
                    } else {
                        p.service is Plain
                    },
                }
            },
        }
    }

    /// Put the proxy together. A listen address and a route are required.
    /// A route with several endpoints and no interceptor gets the built-in
    /// failover routing.
    pub fn build(self) -> (r: Result<Proxy<I>, ConfigError>)
        ensures
            self.builds(r),
    {
        let listen_addr = match self.listen_addr {
            Some(addr) => addr,
            None => {
                return Err(ConfigError::Missing("listen"));
            },
        };
        let route = match self.route {
            Some(route) => route,
            None => {
                return Err(ConfigError::Missing("upstream"));
            },
        };
        let service = match self.interceptor {
            Some(i) => Service::Custom(i),
            None => {
                if route.endpoints.len() > 1 {
                    Service::Failover(FailoverRouter::from_endpoints(route.endpoints.as_slice()))
                } else {
                    Service::Plain
                }
            },
        };
        let pool = match self.pool_config {
            Some(c) => c,
            None => PoolConfig::default(),
        };
        let max_client_conn: usize = if self.max_client_conn == 0 {
            DEFAULT_MAX_CLIENT_CONN
        } else {
            self.max_client_conn
        };
        let shutdown_drain: Nanos = match self.shutdown_drain {
            Some(d) => d,
            None => DEFAULT_SHUTDOWN_DRAIN,
        };
        Ok(
            Proxy {
                config: ProxyConfig {
                    listen_addr,
                    route,
                    pool,
                    max_client_conn,
                    admin_database: self.admin_database,
                    metrics_addr: self.metrics_addr,
                    tls_server: self.tls_server,
                    shutdown_drain,
                },
                service,
            },
        )
    }
}

/// The pool tuning of a proxy that sets none.
pub open spec fn default_pool_config() -> PoolConfig {
    PoolConfig {
        mode: crate::pool::PoolMode::Session,
        max_size: 16,
        idle_timeout: 600_000_000_000,
        max_lifetime: 3_600_000_000_000,
        stale_after: 30_000_000_000,
        sweep_interval: 15_000_000_000,
    }
}

/// A proxy needs an address and a route, and nothing else: what was not set has
/// its default. Without a service of its own it fails over between its
/// endpoints, when it has more than one.
pub proof fn law_build<I>(b: ProxyBuilder<I>, r: Result<Proxy<I>, ConfigError>)
    requires
        b.builds(r),
    ensures
        r is Ok <==> b.listen_addr is Some && b.route is Some,
        r matches Err(e) ==> e is Missing && e->Missing_0@ == (if b.listen_addr is None {
            "listen"@
        } else {
            "upstream"@
        }),
        r matches Ok(p) ==> {
            &&& Some(p.config.listen_addr) == b.listen_addr
            &&& Some(p.config.route) == b.route
            &&& b.pool_config is Some ==> Some(p.config.pool) == b.pool_config
            &&& b.pool_config is None ==> p.config.pool.max_size == 16
            &&& b.pool_config is None ==> p.config.pool.idle_timeout == 600 * 1_000_000_000
            &&& b.pool_config is None ==> p.config.pool.max_lifetime == 3600 * 1_000_000_000
            &&& b.pool_config is None ==> p.config.pool.stale_after == 30 * 1_000_000_000
            &&& b.pool_config is None ==> p.config.pool.sweep_interval == 15 * 1_000_000_000
            &&& b.pool_config is None ==> p.config.pool.mode == crate::pool::PoolMode::Session
            &&& b.max_client_conn > 0 ==> p.config.max_client_conn == b.max_client_conn
            &&& b.max_client_conn == 0 ==> p.config.max_client_conn == 128
            &&& b.shutdown_drain is Some ==> Some(p.config.shutdown_drain) == b.shutdown_drain
            &&& b.shutdown_drain is None ==> p.config.shutdown_drain == 30 * 1_000_000_000
            &&& p.config.admin_database == b.admin_database
            &&& p.config.metrics_addr == b.metrics_addr
            &&& p.config.tls_server == b.tls_server
            &&& p.service is Custom <==> b.interceptor is Some
            &&& p.service is Failover <==> b.interceptor is None
                && p.config.route.endpoints@.len() > 1
            &&& p.service matches Service::Custom(service) ==> b.interceptor == Some(service)
        },
{
}

/// A route from a connection string alone: one endpoint, no password, and
/// certificates are checked.
pub proof fn law_bare_route(r: RouteConfig, id: Seq<char>, connstring: Seq<char>)
    requires
        is_bare_route(r, id, connstring),
    ensures
        r.name@ == "default"@,
        r.endpoints@.len() == 1,
        r.endpoints@[0].id@ == id,
        r.endpoints@[0].upstream@ == connstring,
        r.endpoints@[0].password is None,
        r.endpoints@[0].tls is None,
        r.password is None,
        r.tls.ca is None,
        !r.tls.insecure,
{
}

/// An endpoint that is added stands behind those that were named before, which
/// stay as they are; the endpoint that stood for a bare connection string makes
/// way. Nothing else of the builder changes, nor of the route.
pub proof fn law_endpoint_added<I>(
    b: ProxyBuilder<I>,
    id: Seq<char>,
    connstring: Seq<char>,
    after: ProxyBuilder<I>,
    i: int,
)
    requires
        b.gains_endpoint(id, connstring, after),
    ensures
        after.route is Some,
        !after.implicit_endpoint,
        ({
            let now = after.route->0.endpoints@;
            &&& now.len() > 0
            &&& now.last().id@ == id
            &&& now.last().upstream@ == connstring
            &&& b.route is None || b.implicit_endpoint ==> now.len() == 1
            &&& b.route is Some && !b.implicit_endpoint ==> now.len() == b.route->0.endpoints@.len()
                + 1
            &&& b.route is Some && !b.implicit_endpoint && 0 <= i < b.route->0.endpoints@.len()
                ==> now[i] == b.route->0.endpoints@[i]
        }),
        b.route is Some ==> after.route->0.password == b.route->0.password
            && after.route->0.name == b.route->0.name && after.route->0.tls == b.route->0.tls,
        after.listen_addr == b.listen_addr,
        after.interceptor == b.interceptor,
        after.pool_config == b.pool_config,
{
    let now = after.route->0.endpoints@;
    assert(now.drop_last().len() == now.len() - 1);
    if b.route is Some && !b.implicit_endpoint && 0 <= i < b.route->0.endpoints@.len() {
        assert(now.drop_last()[i] == now[i]);
    }
}

} // verus!
