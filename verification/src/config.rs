//! Routes, endpoints and TLS settings.

use std::path::PathBuf;

use vstd::prelude::*;
use crate::text;

verus! {

/// A file-system path, carried through as it is.
#[verifier::external_type_specification]
#[verifier::external_body]
pub struct ExPathBuf(std::path::PathBuf);

/// Cloning a path gives an equal path.
pub assume_specification[ <PathBuf as Clone>::clone ](p: &PathBuf) -> (r: PathBuf)
    ensures
        r == *p,
;

/// Configuration errors.
#[derive(Debug)]
pub enum ConfigError {
    /// The address text, and why it is not an address.
    ListenAddr(String, String),
    /// The name of a setting that is required.
    Missing(&'static str),
    /// Why the TLS configuration is invalid.
    Tls(String),
}

impl ConfigError {
    /// The text shown to the operator.
    pub open spec fn spec_message(&self) -> Seq<char> {
        match self {
            ConfigError::ListenAddr(addr, reason) => "invalid listen address "@
                + text::quoted_text(addr@) + ": "@ + reason@,
            ConfigError::Missing(name) => "missing required configuration: "@ + name@,
            ConfigError::Tls(reason) => "invalid TLS configuration: "@ + reason@,
        }
    }

    /// The text shown to the operator.
    pub fn message(&self) -> (r: String)
        ensures
            r@ == self.spec_message(),
    {
        match self {
            ConfigError::ListenAddr(addr, reason) => {
                let mut r = "invalid listen address ".to_owned();
                r.append(text::quoted(addr.as_str()).as_str());
                r.append(": ");
                r.append(reason.as_str());
                r
            },
            ConfigError::Missing(name) => {
                let mut r = "missing required configuration: ".to_owned();
                r.append(name);
                r
            },
            ConfigError::Tls(reason) => {
                let mut r = "invalid TLS configuration: ".to_owned();
                r.append(reason.as_str());
                r
            },
        }
    }
}

/// Downstream TLS termination (listener level).
#[derive(Debug, Clone)]
pub struct ServerTlsConfig {
    /// PEM certificate chain path.
    pub cert: PathBuf,
    /// PEM private key path.
    pub key: PathBuf,
}

/// Upstream TLS (client side).
#[derive(Debug, Clone)]
pub struct UpstreamTlsConfig {
    /// Verify the upstream against this PEM CA file. When `None` and
    /// `insecure` is false, no TLS connector is configured (plaintext, or
    /// an error if the connection string requires TLS).
    pub ca: Option<PathBuf>,
    /// Skip certificate verification.
    pub insecure: bool,
}

impl Default for UpstreamTlsConfig {
    fn default() -> (r: Self)
        ensures
            r.ca is None,
            !r.insecure,
    {
        UpstreamTlsConfig { ca: None, insecure: false }
    }
}

/// How an upstream connection is secured.
pub enum TlsMode<'a> {
    /// TLS, with the server's certificate accepted unverified.
    Unverified,
    /// TLS, verified against this CA file.
    Verified(&'a PathBuf),
    /// No TLS connector.
    Plain,
}

impl UpstreamTlsConfig {
    /// How connections are secured: `insecure` wins over a CA file, and
    /// without either there is no TLS connector.
    pub fn mode(&self) -> (m: TlsMode<'_>)
        ensures
            match m {
                TlsMode::Unverified => self.insecure,
                TlsMode::Verified(path) => !self.insecure && self.ca == Some(*path),
                TlsMode::Plain => !self.insecure && self.ca is None,
            },
    {
        if self.insecure {
            TlsMode::Unverified
        } else {
            match &self.ca {
                Some(path) => TlsMode::Verified(path),
                None => TlsMode::Plain,
            }
        }
    }
}

/// Identifies one upstream endpoint of a route (routing decisions and
/// pool keys carry it).
pub type EndpointId = String;

/// One upstream endpoint: a routing target with its own connection
/// parameters and pool.
#[derive(Debug, Clone)]
pub struct EndpointConfig {
    /// Endpoint name: what a routing decision returns and pool keys carry.
    pub id: EndpointId,
    /// libpq-style connection string, e.g. `"host=127.0.0.1 port=5432"`.
    /// `user` and `dbname` come from the downstream client's startup
    /// message.
    pub upstream: String,
    /// Password override for this endpoint; falls back to the route's.
    pub password: Option<String>,
    /// TLS override for this endpoint; falls back to the route's.
    pub tls: Option<UpstreamTlsConfig>,
}

/// The ids of a list of endpoints.
pub open spec fn endpoint_ids(endpoints: Seq<EndpointConfig>) -> Seq<Seq<char>> {
    endpoints.map_values(|e: EndpointConfig| e.id@)
}

/// The position of the first endpoint with this id.
pub fn endpoint_position(endpoints: &[EndpointConfig], id: &str) -> (r: Option<usize>)
    ensures
        match r {
            Some(i) => text::first_index(endpoint_ids(endpoints@), id@) == Some(i as int),
            None => text::first_index(endpoint_ids(endpoints@), id@) is None,
        },
        r matches Some(i) ==> i < endpoints.len(),
{
    let ghost ids = endpoint_ids(endpoints@);
    let mut i: usize = 0;
    while i < endpoints.len()
        invariant
            i <= endpoints.len(),
            ids == endpoint_ids(endpoints@),
            text::first_index(ids.take(i as int), id@) is None,
        decreases endpoints.len() - i,
    {
        assert(ids.take(i + 1).drop_last() == ids.take(i as int));
        if text::same_text(endpoints[i].id.as_str(), id) {
            proof {
                lemma_first_index_extends(ids, id@, i + 1);
            }
            return Some(i);
        }
        i += 1;
    }
    assert(ids.take(endpoints.len() as int) == ids);
    None
}

/// A first position found in a prefix is the first position overall.
pub(crate) proof fn lemma_first_index_extends(items: Seq<Seq<char>>, item: Seq<char>, k: int)
    requires
        0 <= k <= items.len(),
        text::first_index(items.take(k), item) is Some,
    ensures
        text::first_index(items, item) == text::first_index(items.take(k), item),
    decreases items.len() - k,
{
    if k < items.len() {
        assert(items.take(k + 1).drop_last() == items.take(k));
        lemma_first_index_extends(items, item, k + 1);
    } else {
        assert(items.take(k) == items);
    }
}

/// A single upstream route with one or more endpoints.
///
/// Multiple endpoints enable routing and failover: each attach picks an
/// endpoint, and connection failures re-enter routing.
#[derive(Debug, Clone)]
pub struct RouteConfig {
    /// Route name, used in logs.
    pub name: String,
    /// Upstream endpoints. The first is the default routing target.
    pub endpoints: Vec<EndpointConfig>,
    /// Default password for upstream authentication (endpoint override
    /// wins).
    pub password: Option<String>,
    /// Default upstream TLS configuration (endpoint override wins).
    pub tls: UpstreamTlsConfig,
}

/// What a new connection to an endpoint is made with.
pub struct ConnectPlan<'a> {
    pub connstring: &'a str,
    pub user: &'a str,
    pub database: Option<&'a str>,
    pub password: Option<&'a str>,
    pub tls: &'a UpstreamTlsConfig,
}

impl RouteConfig {
    /// The first endpoint with this id.
    pub fn endpoint(&self, id: &str) -> (r: Option<&EndpointConfig>)
        ensures
            match r {
                Some(e) => {
                    &&& text::first_index(endpoint_ids(self.endpoints@), id@) matches Some(i)
                    &&& 0 <= i < self.endpoints.len()
                    &&& *e == self.endpoints@[i]
                    &&& e.id@ == id@
                },
                None => text::first_index(endpoint_ids(self.endpoints@), id@) is None,
            },
    {
        proof {
            text::law_first_index(endpoint_ids(self.endpoints@), id@);
        }
        match endpoint_position(self.endpoints.as_slice(), id) {
            Some(i) => Some(&self.endpoints[i]),
            None => None,
        }
    }

    /// What a connection to `endpoint` for this user and database is made
    /// with: the endpoint's own password and TLS settings where it has them,
    /// the route's otherwise.
    pub fn connect_plan<'a>(
        &'a self,
        endpoint: &'a EndpointConfig,
        user: &'a str,
        database: Option<&'a str>,
    ) -> (p: ConnectPlan<'a>)
        ensures
            p.connstring@ == endpoint.upstream@,
            p.user@ == user@,
            text::opt_str(p.database) == text::opt_str(database),
            text::opt_str(p.password) == text::opt_text(
                if endpoint.password is Some {
                    endpoint.password
                } else {
                    self.password
                },
            ),
            *p.tls == (match endpoint.tls {
                Some(tls) => tls,
                None => self.tls,
            }),
    {
        let password: Option<&'a str> = match &endpoint.password {
            Some(p) => Some(p.as_str()),
            None => match &self.password {
                Some(p) => Some(p.as_str()),
                None => None,
            },
        };
        let tls: &'a UpstreamTlsConfig = match &endpoint.tls {
            Some(tls) => tls,
            None => &self.tls,
        };
        ConnectPlan { connstring: endpoint.upstream.as_str(), user, database, password, tls }
    }
}

} // verus!
