//! Settings of the reference binary: its configuration file and command line.

use std::path::PathBuf;

use vstd::prelude::*;

use crate::config::{EndpointConfig, RouteConfig, UpstreamTlsConfig};
use crate::pool::{PoolConfig, PoolMode};
use crate::text;
use crate::time::{Nanos, SECOND};

verus! {

/// Pool settings of the configuration file.
#[derive(Debug, Default, Clone)]
pub struct FilePool {
    /// `"session"` (default) or `"transaction"`.
    pub mode: Option<String>,
    pub max_size: Option<usize>,
    pub idle_timeout_secs: Option<u64>,
    pub max_lifetime_secs: Option<u64>,
    pub stale_after_secs: Option<u64>,
    pub sweep_interval_secs: Option<u64>,
}

/// A number of seconds, where there is one.
pub open spec fn seconds_or(secs: Option<u64>, otherwise: Nanos) -> Nanos {
    match secs {
        Some(s) => (s * SECOND) as Nanos,
        None => otherwise,
    }
}

fn seconds(secs: Option<u64>, otherwise: Nanos) -> (r: Nanos)
    ensures
        r == seconds_or(secs, otherwise),
{
    match secs {
        Some(s) => {
            assert(s * SECOND <= u64::MAX * 1_000_000_000);
            s as Nanos * SECOND
        },
        None => otherwise,
    }
}

impl FilePool {
    /// Whether the mode is one that is not known.
    pub open spec fn unknown_mode(&self) -> bool {
        self.mode matches Some(m) && m@ != "session"@ && m@ != "transaction"@
    }

    /// The pool tuning that the settings stand for.
    pub open spec fn pool_config(&self) -> PoolConfig {
        PoolConfig {
            mode: if self.mode matches Some(m) && m@ == "transaction"@ {
                PoolMode::Transaction
            } else {
                PoolMode::Session
            },
            max_size: match self.max_size {
                Some(n) => n,
                None => 16,
            },
            idle_timeout: seconds_or(self.idle_timeout_secs, 600_000_000_000),
            max_lifetime: seconds_or(self.max_lifetime_secs, 3_600_000_000_000),
            stale_after: seconds_or(self.stale_after_secs, 30_000_000_000),
            sweep_interval: seconds_or(self.sweep_interval_secs, 15_000_000_000),
        }
    }

    /// The mode, when it is not known.
    pub open spec fn strange_mode(&self) -> Option<String> {
        if self.unknown_mode() {
            self.mode
        } else {
            None
        }
    }

    /// The pool tuning that the settings stand for. An unknown mode counts as
    /// session mode; the second result holds it.
    pub fn into_config(self) -> (r: (PoolConfig, Option<String>))
        ensures
            r.0 == self.pool_config(),
            r.1 == self.strange_mode(),
    {
        let defaults = PoolConfig::default();
        let mut unknown: Option<String> = None;
        let mut mode = PoolMode::Session;
        match self.mode {
            Some(m) => {
                if text::same_text(m.as_str(), "transaction") {
                    proof {
                        reveal_strlit("transaction");
                        reveal_strlit("session");
                    }
                    mode = PoolMode::Transaction;
                } else if !text::same_text(m.as_str(), "session") {
                    unknown = Some(m);
                }
            },
            None => {},
        }
        let max_size: usize = match self.max_size {
            Some(n) => n,
            None => defaults.max_size,
        };
        let config = PoolConfig {
            mode,
            max_size,
            idle_timeout: seconds(self.idle_timeout_secs, defaults.idle_timeout),
            max_lifetime: seconds(self.max_lifetime_secs, defaults.max_lifetime),
            stale_after: seconds(self.stale_after_secs, defaults.stale_after),
            sweep_interval: seconds(self.sweep_interval_secs, defaults.sweep_interval),
        };
        (config, unknown)
    }
}

/// A named endpoint of the configuration file.
#[derive(Debug, Clone)]
pub struct FileEndpoint {
    pub id: String,
    pub upstream: String,
    pub password: Option<String>,
}

/// The route of the configuration file.
#[derive(Debug, Clone)]
pub struct FileRoute {
    pub name: Option<String>,
    /// Single-endpoint shorthand.
    pub upstream: Option<String>,
    /// Named endpoints; they override `upstream`.
    pub endpoints: Vec<FileEndpoint>,
    pub password: Option<String>,
    /// The environment variable that holds the password.
    pub password_env: Option<String>,
    /// PEM CA file to verify the upstream certificate.
    pub tls_ca: Option<PathBuf>,
    /// Accept the upstream certificate without verification.
    pub tls_insecure: Option<bool>,
}

/// The first that is there.
pub open spec fn first_of(a: Option<Seq<char>>, b: Option<Seq<char>>) -> Option<Seq<char>> {
    if a is Some {
        a
    } else {
        b
    }
}

/// The upstream password: the command line's, else the file's, else the value
/// of the variable that the file names.
pub open spec fn password_of(
    cli: Option<Seq<char>>,
    file: Option<Seq<char>>,
    names_variable: bool,
    variable: Option<Seq<char>>,
) -> Option<Seq<char>> {
    first_of(
        cli,
        first_of(
            file,
            if names_variable {
                variable
            } else {
                None
            },
        ),
    )
}

/// The upstream password: the command line's, else the file's, else the value
/// of the variable that the file names.
pub fn resolve_password(
    route: &FileRoute,
    cli_password: Option<String>,
    variable: Option<String>,
) -> (r: Option<String>)
    ensures
        text::opt_text(r) == password_of(
            text::opt_text(cli_password),
            text::opt_text(route.password),
            route.password_env is Some,
            text::opt_text(variable),
        ),
{
    if cli_password.is_some() {
        return cli_password;
    }
    if route.password.is_some() {
        return text::copy_opt(&route.password);
    }
    if route.password_env.is_some() {
        return variable;
    }
    None
}

/// The listen address: the command line's, else the file's.
pub fn listen_address(cli: Option<String>, file: Option<String>) -> (r: Option<String>)
    ensures
        text::opt_text(r) == first_of(text::opt_text(cli), text::opt_text(file)),
{
    match cli {
        Some(addr) => Some(addr),
        None => file,
    }
}

/// The connection string of the single-endpoint shorthand: the command
/// line's, else the file's, else empty.
pub open spec fn shorthand(cli: Option<Seq<char>>, file: Option<FileRoute>) -> Seq<char> {
    match first_of(
        cli,
        match file {
            Some(f) => text::opt_text(f.upstream),
            None => None,
        },
    ) {
        Some(s) => s,
        None => Seq::empty(),
    }
}

/// Whether an endpoint is the one that the file names.
pub open spec fn is_file_endpoint(e: EndpointConfig, f: FileEndpoint) -> bool {
    e.id@ == f.id@ && e.upstream@ == f.upstream@ && e.password == f.password && e.tls is None
}

/// Whether a route is the one that the command line and the file stand for.
pub open spec fn assembled(
    r: RouteConfig,
    file: Option<FileRoute>,
    cli_upstream: Option<Seq<char>>,
    cli_password: Option<Seq<char>>,
    variable: Option<Seq<char>>,
) -> bool {
    &&& r.name@ == (match file {
        Some(f) => match f.name {
            Some(name) => name@,
            None => "default"@,
        },
        None => "default"@,
    })
    &&& match file {
        Some(f) if f.endpoints@.len() > 0 => {
            &&& r.endpoints@.len() == f.endpoints@.len()
            &&& forall|i: int|
                0 <= i < r.endpoints@.len() ==> is_file_endpoint(
                    #[trigger] r.endpoints@[i],
                    f.endpoints@[i],
                )
        },
        _ => {
            &&& r.endpoints@.len() == 1
            &&& r.endpoints@[0].id@ == "default"@
            &&& r.endpoints@[0].upstream@ == shorthand(cli_upstream, file)
            &&& r.endpoints@[0].password is None
            &&& r.endpoints@[0].tls is None
        },
    }
    &&& text::opt_text(r.password) == (match file {
        Some(f) => password_of(
            cli_password,
            text::opt_text(f.password),
            f.password_env is Some,
            variable,
        ),
        None => cli_password,
    })
    &&& r.tls.ca == (match file {
        Some(f) => f.tls_ca,
        None => None,
    })
    &&& r.tls.insecure == (file matches Some(f) && f.tls_insecure == Some(true))
}

/// The route that the command line and the file stand for. `variable` is the
/// value of the environment variable that the file names for the password.
pub fn assemble_route(
    file: &Option<FileRoute>,
    cli_upstream: Option<String>,
    cli_password: Option<String>,
    variable: Option<String>,
) -> (r: RouteConfig)
    ensures
        assembled(
            r,
            *file,
            text::opt_text(cli_upstream),
            text::opt_text(cli_password),
            text::opt_text(variable),
        ),
{
    let mut name = "default".to_owned();
    let mut endpoints: Vec<EndpointConfig> = Vec::new();
    let mut upstream = String::new();
    let mut ca: Option<PathBuf> = None;
    let mut insecure: bool = false;
    let mut password: Option<String> = None;
    match file {
        Some(f) => {
            match &f.name {
                Some(n) => {
                    name = n.clone();
                },
                None => {},
            }
            let mut i: usize = 0;
            while i < f.endpoints.len()
                invariant
                    i <= f.endpoints.len(),
                    endpoints.len() == i,
                    forall|j: int|
                        0 <= j < i ==> is_file_endpoint(
                            #[trigger] endpoints@[j],
                            f.endpoints@[j],
                        ),
                decreases f.endpoints.len() - i,
            {
                endpoints.push(
                    EndpointConfig {
                        id: f.endpoints[i].id.clone(),
                        upstream: f.endpoints[i].upstream.clone(),
                        password: text::copy_opt(&f.endpoints[i].password),
                        tls: None,
                    },
                );
                i += 1;
            }
            match &f.upstream {
                Some(u) => {
                    upstream = u.clone();
                },
                None => {},
            }
            ca = match &f.tls_ca {
                Some(path) => Some(path.clone()),
                None => None,
            };
            insecure = match f.tls_insecure {
                Some(b) => b,
                None => false,
            };
            password = resolve_password(f, cli_password, variable);
        },
        None => {
            password = cli_password;
        },
    }
    match cli_upstream {
        Some(u) => {
            upstream = u;
        },
        None => {},
    }
    if endpoints.len() == 0 {
        endpoints.push(
            EndpointConfig { id: "default".to_owned(), upstream, password: None, tls: None },
        );
    }
    RouteConfig { name, endpoints, password, tls: UpstreamTlsConfig { ca, insecure } }
}

/// A number of seconds in the file is that many seconds; without one the
/// default stands.
pub proof fn law_seconds(secs: u64, otherwise: Nanos)
    ensures
        seconds_or(Some(secs), otherwise) == secs * 1_000_000_000,
        seconds_or(None, otherwise) == otherwise,
{
    assert(secs * 1_000_000_000 <= u128::MAX) by (nonlinear_arith)
        requires
            secs <= u64::MAX,
    ;
}

/// The command line wins over the file, and a password in the file over the
/// variable; a variable counts only when the file names one.
pub proof fn law_precedence(
    cli: Seq<char>,
    file: Option<Seq<char>>,
    given: Seq<char>,
    names_variable: bool,
    variable: Option<Seq<char>>,
)
    ensures
        first_of(Some(cli), file) == Some(cli),
        first_of(None, file) == file,
        password_of(Some(cli), file, names_variable, variable) == Some(cli),
        password_of(None, Some(given), names_variable, variable) == Some(given),
        password_of(None, None, true, variable) == variable,
        password_of(None, None, false, variable) is None,
{
}

/// The route of a file: its endpoints, when it names any, and then no shorthand
/// counts; else one endpoint from the shorthand, of which the command line's
/// wins. Certificates are checked unless the file says otherwise.
pub proof fn law_route_assembled(
    r: RouteConfig,
    f: FileRoute,
    cli_upstream: Option<Seq<char>>,
    cli_password: Option<Seq<char>>,
    variable: Option<Seq<char>>,
)
    requires
        assembled(r, Some(f), cli_upstream, cli_password, variable),
    ensures
        r.endpoints@.len() >= 1,
        f.endpoints@.len() > 0 ==> r.endpoints@.len() == f.endpoints@.len(),
        forall|i: int|
            0 <= i < f.endpoints@.len() ==> {
                &&& (#[trigger] r.endpoints@[i]).id@ == f.endpoints@[i].id@
                &&& r.endpoints@[i].upstream@ == f.endpoints@[i].upstream@
                &&& r.endpoints@[i].password == f.endpoints@[i].password
            },
        f.endpoints@.len() == 0 && cli_upstream is Some ==> r.endpoints@[0].upstream@
            == cli_upstream->0,
        f.endpoints@.len() == 0 && cli_upstream is None && f.upstream is Some
            ==> r.endpoints@[0].upstream@ == f.upstream->0@,
        cli_password is Some ==> r.password is Some && r.password->0@ == cli_password->0,
        cli_password is None && f.password is Some ==> r.password is Some && r.password->0@
            == f.password->0@,
        cli_password is None && f.password is None && f.password_env is None ==> r.password is None,
        f.name is Some ==> r.name@ == f.name->0@,
        f.name is None ==> r.name@ == "default"@,
        f.tls_insecure is None || f.tls_insecure == Some(false) ==> !r.tls.insecure,
        f.tls_insecure == Some(true) ==> r.tls.insecure,
        r.tls.ca == f.tls_ca,
{
    assert forall|i: int| 0 <= i < f.endpoints@.len() implies {
        &&& (#[trigger] r.endpoints@[i]).id@ == f.endpoints@[i].id@
        &&& r.endpoints@[i].upstream@ == f.endpoints@[i].upstream@
        &&& r.endpoints@[i].password == f.endpoints@[i].password
    } by {
        assert(is_file_endpoint(r.endpoints@[i], f.endpoints@[i]));
    }
}

/// Without a file, the command line alone makes the route.
pub proof fn law_route_without_file(
    r: RouteConfig,
    upstream: Seq<char>,
    cli_password: Option<Seq<char>>,
    variable: Option<Seq<char>>,
)
    requires
        assembled(r, None, Some(upstream), cli_password, variable),
    ensures
        r.name@ == "default"@,
        r.endpoints@.len() == 1,
        r.endpoints@[0].id@ == "default"@,
        r.endpoints@[0].upstream@ == upstream,
        text::opt_text(r.password) == cli_password,
        r.tls.ca is None,
        !r.tls.insecure,
{
}

/// Each setting of the file tunes what it is named after, and each that is not
/// there leaves the default; only the word for transaction mode turns it on,
/// and a word that is neither mode is handed back.
pub proof fn law_pool_settings(f: FilePool)
    ensures
        f.max_size matches Some(n) ==> f.pool_config().max_size == n,
        f.max_size is None ==> f.pool_config().max_size == 16,
        f.idle_timeout_secs matches Some(n) ==> f.pool_config().idle_timeout == n * 1_000_000_000,
        f.idle_timeout_secs is None ==> f.pool_config().idle_timeout == 600 * 1_000_000_000,
        f.max_lifetime_secs matches Some(n) ==> f.pool_config().max_lifetime == n * 1_000_000_000,
        f.max_lifetime_secs is None ==> f.pool_config().max_lifetime == 3600 * 1_000_000_000,
        f.stale_after_secs matches Some(n) ==> f.pool_config().stale_after == n * 1_000_000_000,
        f.stale_after_secs is None ==> f.pool_config().stale_after == 30 * 1_000_000_000,
        f.sweep_interval_secs matches Some(n) ==> f.pool_config().sweep_interval == n
            * 1_000_000_000,
        f.sweep_interval_secs is None ==> f.pool_config().sweep_interval == 15 * 1_000_000_000,
        f.pool_config().mode == PoolMode::Transaction <==> f.mode is Some && f.mode->0@
            == "transaction"@,
        f.strange_mode() is Some <==> f.mode is Some && f.mode->0@ != "transaction"@ && f.mode->0@
            != "session"@,
        f.strange_mode() is Some ==> f.strange_mode() == f.mode,
{
    law_seconds(f.idle_timeout_secs->0, 0);
    law_seconds(f.max_lifetime_secs->0, 0);
    law_seconds(f.stale_after_secs->0, 0);
    law_seconds(f.sweep_interval_secs->0, 0);
}

} // verus!
