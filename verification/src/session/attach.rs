//! Attaching an upstream connection to a session.
//!
//! Routing picks an endpoint, a connection is checked out of its pool, and
//! the session's state is put on it: startup parameters, parameter values set
//! earlier, named statements. A failure anywhere consults the error policy,
//! which either has routing pick again or ends the session. The number of
//! attempts is bounded.
//!
//! [`Attach`] decides; its caller asks the hooks and talks to the
//! connections.

use vstd::prelude::*;

use crate::config;
use crate::config::RouteConfig;
use crate::intercept;
use crate::intercept::{RetryDecision, UpstreamError};
use crate::pool;
use crate::pool::TRACKED_STARTUP_PARAMETERS;
use crate::session::registry;
use crate::session::registry::StatementRegistry;
use crate::text;
use crate::textmap::TextMap;
use crate::wire;
use crate::wire::FrontendMessage;

verus! {

/// How often a route with this many endpoints is tried: twice for each, and
/// at least twice.
pub open spec fn attempts_for(endpoints: nat) -> nat {
    if 2 * endpoints > usize::MAX {
        usize::MAX as nat
    } else if endpoints == 0 {
        2
    } else {
        2 * endpoints
    }
}

/// How often a route is tried before the session gives up.
pub fn attempts(endpoints: usize) -> (n: usize)
    ensures
        n == attempts_for(endpoints as nat),
        n >= 2,
{
    if endpoints == 0 {
        2
    } else if endpoints > usize::MAX / 2 {
        usize::MAX
    } else {
        2 * endpoints
    }
}

/// The text about an endpoint that the route does not have.
pub open spec fn unknown_endpoint(id: Seq<char>) -> Seq<char> {
    "unknown upstream endpoint "@ + text::quoted_text(id)
}

fn unknown_endpoint_text(id: &str) -> (r: String)
    ensures
        r@ == unknown_endpoint(id@),
{
    let mut r = "unknown upstream endpoint ".to_owned();
    r.append(text::quoted(id).as_str());
    r
}

/// `a` followed by `b`.
fn joined(a: &str, b: &str) -> (r: String)
    ensures
        r@ == a@ + b@,
{
    let mut r = a.to_owned();
    r.append(b);
    r
}

/// How far an attach has come.
#[verifier::ext_equal]
pub enum PhaseView {
    /// Routing picks an endpoint.
    Routing,
    /// A connection to the endpoint is checked out.
    CheckingOut { endpoint: Seq<char> },
    /// Startup parameters are put on the connection, from this one on.
    Syncing { endpoint: Seq<char>, next: nat },
    /// Parameter values set earlier are put on the connection, from this one
    /// on.
    Overriding { endpoint: Seq<char>, next: nat },
    /// The session's statements are prepared on the connection.
    Replaying { endpoint: Seq<char> },
    /// The error policy decides; if it says to close, the client is told
    /// this.
    Deciding { fatal: Seq<char> },
    /// The attach is over.
    Over,
}

/// The step to take next.
#[verifier::ext_equal]
pub enum AttachStepView {
    /// Ask routing for an endpoint.
    Route,
    /// Check a connection out of the endpoint's pool.
    Checkout { endpoint: Seq<char> },
    /// Run this statement on the connection. With `cache`, the connection is
    /// afterwards known to have that parameter value.
    Run { sql: Seq<char>, cache: Option<(Seq<char>, Seq<char>)> },
    /// Prepare the session's statements.
    Replay,
    /// Destroy the connection, if there is one, and ask the error policy.
    Consult { destroy: Option<Seq<char>>, error: intercept::UpstreamErrorView },
    /// The connection is attached.
    Connected { endpoint: Seq<char>, dirtied: bool },
    /// The session cannot be attached; the client is told this.
    Fatal { message: Seq<char> },
}

/// The state of an attach.
#[verifier::ext_equal]
pub struct AttachView {
    /// The ids of the route's endpoints.
    pub ids: Seq<Seq<char>>,
    /// The parameters of the client's startup packet.
    pub startup: Map<Seq<char>, String>,
    /// The names of the parameters set earlier, in the order in which they
    /// are put on a connection.
    pub names: Seq<Seq<char>>,
    /// The values of the parameters set earlier.
    pub overrides: Map<Seq<char>, String>,
    /// The session's statements.
    pub registry: Map<Seq<char>, registry::StatementView>,
    /// Attempts left, the current one counted.
    pub left: nat,
    pub phase: PhaseView,
    /// Session state was put on a connection.
    pub dirtied: bool,
}

/// The name of a startup parameter that is put on connections.
pub open spec fn startup_name(i: nat) -> Seq<char> {
    TRACKED_STARTUP_PARAMETERS[i as int]@
}

/// The statements of a session that has prepared none.
pub open spec fn no_statements() -> Map<Seq<char>, registry::StatementView> {
    Map::empty()
}

impl AttachView {
    /// Whether the startup parameter has to be set on a connection with these
    /// parameters.
    pub open spec fn startup_differs(self, i: nat, current: Map<Seq<char>, String>) -> bool {
        pool::startup_differs(self.startup, current, i as int)
    }

    /// Whether the parameter set earlier has to be set on a connection with
    /// these parameters.
    pub open spec fn override_differs(self, i: nat, current: Map<Seq<char>, String>) -> bool {
        let name = self.names[i as int];
        pool::parameter(current, name) != self.overrides[name]@
    }

    /// Routing has picked an endpoint.
    pub open spec fn routed(self, id: Seq<char>) -> (AttachView, AttachStepView) {
        if text::first_index(self.ids, id) is Some {
            (
                AttachView { phase: PhaseView::CheckingOut { endpoint: id }, ..self },
                AttachStepView::Checkout { endpoint: id },
            )
        } else {
            self.fatal("pgferry: "@ + unknown_endpoint(id))
        }
    }

    /// The attach ends, and with it the session.
    pub open spec fn fatal(self, message: Seq<char>) -> (AttachView, AttachStepView) {
        (AttachView { phase: PhaseView::Over, ..self }, AttachStepView::Fatal { message })
    }

    /// A failure: the error policy decides.
    pub open spec fn consult(
        self,
        endpoint: Seq<char>,
        destroy: Option<Seq<char>>,
        message: Seq<char>,
        fatal: Seq<char>,
    ) -> (AttachView, AttachStepView) {
        (
            AttachView { phase: PhaseView::Deciding { fatal }, ..self },
            AttachStepView::Consult {
                destroy,
                error: intercept::UpstreamErrorView::Connect { endpoint, message },
            },
        )
    }

    /// Checking out failed.
    pub open spec fn checkout_failed(self, error: Seq<char>) -> (AttachView, AttachStepView) {
        self.consult(
            self.phase->CheckingOut_endpoint,
            None,
            error,
            "pgferry: failed to connect to upstream: "@ + error,
        )
    }

    /// The connection is there and has these parameters: put the next piece
    /// of session state on it.
    pub open spec fn proceed(self, current: Map<Seq<char>, String>) -> (AttachView, AttachStepView)
        decreases
                match self.phase {
                    PhaseView::CheckingOut { .. } => 3int,
                    PhaseView::Syncing { .. } => 2int,
                    PhaseView::Overriding { .. } => 1int,
                    _ => 0int,
                },
                match self.phase {
                    PhaseView::Syncing { next, .. } => 2 - next,
                    PhaseView::Overriding { next, .. } => self.names.len() - next,
                    _ => 0int,
                },
    {
        match self.phase {
            PhaseView::CheckingOut { endpoint } => AttachView {
                phase: PhaseView::Syncing { endpoint, next: 0 },
                ..self
            }.proceed(current),
            PhaseView::Syncing { endpoint, next } => if next >= 2 {
                AttachView {
                    phase: PhaseView::Overriding { endpoint, next: 0 },
                    ..self
                }.proceed(current)
            } else if self.startup_differs(next, current) {
                let name = startup_name(next);
                let value = self.startup[name]@;
                (
                    AttachView { phase: PhaseView::Syncing { endpoint, next: next + 1 }, ..self },
                    AttachStepView::Run {
                        sql: pool::set_sql(name, value),
                        cache: Some((name, value)),
                    },
                )
            } else {
                AttachView {
                    phase: PhaseView::Syncing { endpoint, next: next + 1 },
                    ..self
                }.proceed(current)
            },
            PhaseView::Overriding { endpoint, next } => if next >= self.names.len() {
                self.statements(endpoint)
            } else if self.override_differs(next, current) {
                let name = self.names[next as int];
                (
                    AttachView {
                        phase: PhaseView::Overriding { endpoint, next: next + 1 },
                        ..self
                    },
                    AttachStepView::Run {
                        sql: pool::set_sql(name, self.overrides[name]@),
                        cache: None,
                    },
                )
            } else {
                AttachView {
                    phase: PhaseView::Overriding { endpoint, next: next + 1 },
                    ..self
                }.proceed(current)
            },
            _ => (self, AttachStepView::Route),
        }
    }

    /// The session's statements are prepared, if there are any.
    pub open spec fn statements(self, endpoint: Seq<char>) -> (AttachView, AttachStepView) {
        if self.registry == no_statements() {
            self.connected(endpoint)
        } else {
            (
                AttachView { phase: PhaseView::Replaying { endpoint }, ..self },
                AttachStepView::Replay,
            )
        }
    }

    /// The connection carries the session's state.
    pub open spec fn connected(self, endpoint: Seq<char>) -> (AttachView, AttachStepView) {
        (
            AttachView { phase: PhaseView::Over, ..self },
            AttachStepView::Connected { endpoint, dirtied: self.dirtied },
        )
    }

    /// A statement completed.
    pub open spec fn set_completed(self, current: Map<Seq<char>, String>) -> (
        AttachView,
        AttachStepView,
    ) {
        AttachView {
            dirtied: self.dirtied || self.phase is Overriding,
            ..self
        }.proceed(current)
    }

    /// A statement failed.
    pub open spec fn set_failed(self, error: Seq<char>) -> (AttachView, AttachStepView) {
        match self.phase {
            PhaseView::Syncing { endpoint, .. } => self.consult(
                endpoint,
                Some("attach: parameter sync failed"@),
                "parameter sync: "@ + error,
                "pgferry: failed to prepare upstream connection: "@ + error,
            ),
            PhaseView::Overriding { endpoint, next } => {
                let name = self.names[next - 1];
                self.consult(
                    endpoint,
                    Some("attach: GUC replay failed"@),
                    "GUC replay: SET "@ + name,
                    "pgferry: failed to replay session state: SET "@ + name,
                )
            },
            _ => (self, AttachStepView::Route),
        }
    }

    /// The statements were prepared, or not.
    pub open spec fn replayed(self, ok: bool) -> (AttachView, AttachStepView) {
        let endpoint = self.phase->Replaying_endpoint;
        if ok {
            AttachView { dirtied: true, ..self }.connected(endpoint)
        } else {
            self.consult(
                endpoint,
                Some("attach: statement replay failed"@),
                "prepared statement replay failed"@,
                "pgferry: failed to replay prepared statements"@,
            )
        }
    }

    /// The error policy has decided; without one the session is linked anew.
    pub open spec fn decided(self, decision: Option<RetryDecision>) -> (AttachView, AttachStepView) {
        if decision == Some(RetryDecision::Close) {
            self.fatal(self.phase->fatal)
        } else if self.left <= 1 {
            self.fatal("pgferry: all upstream endpoints failed"@)
        } else {
            (
                AttachView { left: (self.left - 1) as nat, phase: PhaseView::Routing, ..self },
                AttachStepView::Route,
            )
        }
    }
}

/// Putting startup parameters on a connection goes past those that it has.
proof fn lemma_sync_skips(
    s: AttachView,
    endpoint: Seq<char>,
    next: nat,
    k: nat,
    current: Map<Seq<char>, String>,
)
    requires
        next <= k <= 2 || (next == k),
        forall|j: int| next <= j < k ==> !pool::startup_differs(s.startup, current, j),
    ensures
        (AttachView { phase: PhaseView::Syncing { endpoint, next }, ..s }).proceed(current) == (
        AttachView { phase: PhaseView::Syncing { endpoint, next: k }, ..s }).proceed(current),
    decreases k - next,
{
    if next < k {
        let here = AttachView { phase: PhaseView::Syncing { endpoint, next }, ..s };
        assert(!pool::startup_differs(s.startup, current, next as int));
        assert(!here.startup_differs(next, current));
        lemma_sync_skips(s, endpoint, next + 1, k, current);
    }
}

/// The step to take next.
pub enum AttachStep {
    /// Ask routing for an endpoint.
    Route,
    /// Check a connection out of the endpoint's pool.
    Checkout { endpoint: String },
    /// Run this statement on the connection. With `cache`, the connection is
    /// afterwards known to have that parameter value.
    Run { sql: String, cache: Option<(String, String)> },
    /// Send these messages and await their completion.
    Replay { messages: Vec<FrontendMessage> },
    /// Destroy the connection, if there is one, and ask the error policy.
    Consult { destroy: Option<&'static str>, error: UpstreamError },
    /// The connection is attached.
    Connected { endpoint: String, dirtied: bool },
    /// The session cannot be attached; the client is told this.
    Fatal { message: String },
}

/// The view of what a statement makes known.
pub open spec fn opt_cache(c: Option<(String, String)>) -> Option<(Seq<char>, Seq<char>)> {
    match c {
        Some((name, value)) => Some((name@, value@)),
        None => None,
    }
}

impl AttachStep {
    /// Whether this is the step that the model takes. The order in which
    /// statements are prepared is left open.
    pub open spec fn is_step(&self, registry: Map<Seq<char>, registry::StatementView>, v: AttachStepView) -> bool {
        match (self, v) {
            (AttachStep::Route, AttachStepView::Route) => true,
            (AttachStep::Checkout { endpoint: a }, AttachStepView::Checkout { endpoint: b }) => a@
                == b,
            (AttachStep::Run { sql: a, cache: c }, AttachStepView::Run { sql: b, cache: d }) => a@
                == b && opt_cache(*c) == d,
            (AttachStep::Replay { messages }, AttachStepView::Replay) => registry::replays(
                wire::frontend_views(messages@),
                registry,
            ),
            (
                AttachStep::Consult { destroy: a, error: e },
                AttachStepView::Consult { destroy: b, error: f },
            ) => text::opt_str(*a) == b && e@ == f,
            (
                AttachStep::Connected { endpoint: a, dirtied: c },
                AttachStepView::Connected { endpoint: b, dirtied: d },
            ) => a@ == b && *c == d,
            (AttachStep::Fatal { message: a }, AttachStepView::Fatal { message: b }) => a@ == b,
            _ => false,
        }
    }
}

enum Phase {
    Routing,
    CheckingOut { endpoint: String },
    Syncing { endpoint: String, next: usize },
    Overriding { endpoint: String, next: usize },
    Replaying { endpoint: String },
    Deciding { fatal: String },
    Over,
}

closed spec fn phase_view(p: Phase) -> PhaseView {
    match p {
        Phase::Routing => PhaseView::Routing,
        Phase::CheckingOut { endpoint } => PhaseView::CheckingOut { endpoint: endpoint@ },
        Phase::Syncing { endpoint, next } => PhaseView::Syncing {
            endpoint: endpoint@,
            next: next as nat,
        },
        Phase::Overriding { endpoint, next } => PhaseView::Overriding {
            endpoint: endpoint@,
            next: next as nat,
        },
        Phase::Replaying { endpoint } => PhaseView::Replaying { endpoint: endpoint@ },
        Phase::Deciding { fatal } => PhaseView::Deciding { fatal: fatal@ },
        Phase::Over => PhaseView::Over,
    }
}

/// The session state that goes onto a connection.
pub struct SessionState<'a> {
    /// The parameters of the client's startup packet.
    pub startup: &'a TextMap<String>,
    /// The parameter values that the session has set.
    pub overrides: &'a TextMap<String>,
    /// The session's named statements.
    pub registry: &'a StatementRegistry,
}

/// An attach in progress.
pub struct Attach<'a> {
    route: &'a RouteConfig,
    state: SessionState<'a>,
    left: usize,
    phase: Phase,
    dirtied: bool,
}

impl<'a> View for Attach<'a> {
    type V = AttachView;

    closed spec fn view(&self) -> AttachView {
        AttachView {
            ids: config::endpoint_ids(self.route.endpoints@),
            startup: self.state.startup@,
            names: self.state.overrides.keys(),
            overrides: self.state.overrides@,
            registry: self.state.registry@,
            left: self.left as nat,
            phase: phase_view(self.phase),
            dirtied: self.dirtied,
        }
    }
}

impl<'a> Attach<'a> {
    #[verifier::type_invariant]
    spec fn inv(&self) -> bool {
        self.phase matches Phase::Overriding { next, .. } ==> 0 < next
            <= self.state.overrides.keys().len()
    }

    /// Start to attach a connection for the session.
    pub fn new(route: &'a RouteConfig, state: SessionState<'a>) -> (r: (Attach<'a>, AttachStep))
        ensures
            r.0@ == (AttachView {
                ids: config::endpoint_ids(route.endpoints@),
                startup: state.startup@,
                names: state.overrides.keys(),
                overrides: state.overrides@,
                registry: state.registry@,
                left: attempts_for(route.endpoints@.len()),
                phase: PhaseView::Routing,
                dirtied: false,
            }),
            r.1 is Route,
    {
        let left: usize = attempts(route.endpoints.len());
        (Attach { route, state, left, phase: Phase::Routing, dirtied: false }, AttachStep::Route)
    }

    /// Routing has picked this endpoint.
    pub fn on_routed(&mut self, id: &str) -> (step: AttachStep)
        ensures
            ({
                let (after, s) = old(self)@.routed(id@);
                final(self)@ == after && step.is_step(old(self)@.registry, s)
            }),
    {
        if config::endpoint_position(self.route.endpoints.as_slice(), id).is_some() {
            self.phase = Phase::CheckingOut { endpoint: id.to_owned() };
            AttachStep::Checkout { endpoint: id.to_owned() }
        } else {
            self.phase = Phase::Over;
            AttachStep::Fatal {
                message: joined("pgferry: ", unknown_endpoint_text(id).as_str()),
            }
        }
    }

    /// No connection could be checked out.
    pub fn on_checkout_failed(&mut self, error: &str) -> (step: AttachStep)
        requires
            old(self)@.phase is CheckingOut,
        ensures
            ({
                let (after, s) = old(self)@.checkout_failed(error@);
                final(self)@ == after && step.is_step(old(self)@.registry, s)
            }),
    {
        let endpoint = match &self.phase {
            Phase::CheckingOut { endpoint } => endpoint.clone(),
            _ => String::new(),
        };
        self.phase = Phase::Deciding {
            fatal: joined("pgferry: failed to connect to upstream: ", error),
        };
        AttachStep::Consult {
            destroy: None,
            error: UpstreamError::Connect { endpoint, message: error.to_owned() },
        }
    }

    /// A connection with these parameters was checked out.
    pub fn on_checked_out(&mut self, current: &TextMap<String>) -> (step: AttachStep)
        requires
            old(self)@.phase is CheckingOut,
        ensures
            ({
                let (after, s) = old(self)@.proceed(current@);
                final(self)@ == after && step.is_step(old(self)@.registry, s)
            }),
    {
        let endpoint = match &self.phase {
            Phase::CheckingOut { endpoint } => endpoint.clone(),
            _ => String::new(),
        };
        self.sync_startup(endpoint, 0, current)
    }

    /// The statement completed; the connection now has these parameters.
    pub fn on_set(&mut self, current: &TextMap<String>) -> (step: AttachStep)
        requires
            old(self)@.phase is Syncing || old(self)@.phase is Overriding,
        ensures
            ({
                let (after, s) = old(self)@.set_completed(current@);
                final(self)@ == after && step.is_step(old(self)@.registry, s)
            }),
    {
        proof {
            use_type_invariant(&*self);
        }
        match &self.phase {
            Phase::Overriding { endpoint, next } => {
                let endpoint = endpoint.clone();
                let next: usize = *next;
                self.dirtied = true;
                self.replay_overrides(endpoint, next, current)
            },
            Phase::Syncing { endpoint, next } => {
                let endpoint = endpoint.clone();
                let next: usize = *next;
                self.sync_startup(endpoint, next, current)
            },
            _ => AttachStep::Route,
        }
    }

    /// Put the startup parameters on the connection, from the one at `start`
    /// on.
    fn sync_startup(&mut self, endpoint: String, start: usize, current: &TextMap<String>) -> (step:
        AttachStep)
        ensures
            ({
                let (after, s) = (AttachView {
                    phase: PhaseView::Syncing { endpoint: endpoint@, next: start as nat },
                    ..old(self)@
                }).proceed(current@);
                final(self)@ == after && step.is_step(old(self)@.registry, s)
            }),
    {
        let ghost before = self@;
        match pool::sync_startup_parameters(self.state.startup, current, start) {
            Some(p) => {
                proof {
                    lemma_sync_skips(before, endpoint@, start as nat, p.index as nat, current@);
                }
                self.phase = Phase::Syncing { endpoint, next: p.index + 1 };
                AttachStep::Run { sql: p.sql, cache: Some((p.name, p.value)) }
            },
            None => {
                proof {
                    let end: nat = if start < 2 {
                        2
                    } else {
                        start as nat
                    };
                    lemma_sync_skips(before, endpoint@, start as nat, end, current@);
                }
                self.replay_overrides(endpoint, 0, current)
            },
        }
    }

    /// Put the parameter values set earlier on the connection, from the one
    /// at `start` on, and then the statements.
    fn replay_overrides(&mut self, endpoint: String, start: usize, current: &TextMap<String>) -> (
        step: AttachStep)
        ensures
            ({
                let (after, s) = (AttachView {
                    phase: PhaseView::Overriding { endpoint: endpoint@, next: start as nat },
                    ..old(self)@
                }).proceed(current@);
                final(self)@ == after && step.is_step(old(self)@.registry, s)
            }),
    {
        let ghost before = self@;
        let ghost goal = (AttachView {
            phase: PhaseView::Overriding { endpoint: endpoint@, next: start as nat },
            ..before
        }).proceed(current@);
        let n: usize = self.state.overrides.len();
        let mut i: usize = start;
        while i < n
            invariant
                self@ == before,
                before == old(self)@,
                n == before.names.len(),
                goal == (AttachView {
                    phase: PhaseView::Overriding { endpoint: endpoint@, next: start as nat },
                    ..old(self)@
                }).proceed(current@),
                (AttachView {
                    phase: PhaseView::Overriding { endpoint: endpoint@, next: i as nat },
                    ..before
                }).proceed(current@) == goal,
            decreases n - i,
        {
            let name = self.state.overrides.key_at(i);
            let value = self.state.overrides.value_at(i);
            if !pool::parameter_is(current, name.as_str(), value.as_str()) {
                let sql = pool::set_parameter_sql(name.as_str(), value.as_str());
                self.phase = Phase::Overriding { endpoint, next: i + 1 };
                return AttachStep::Run { sql, cache: None };
            }
            i += 1;
        }
        if self.state.registry.is_empty() {
            self.phase = Phase::Over;
            AttachStep::Connected { endpoint, dirtied: self.dirtied }
        } else {
            let messages = self.state.registry.replay();
            self.phase = Phase::Replaying { endpoint };
            AttachStep::Replay { messages }
        }
    }

    /// The statement failed.
    pub fn on_set_failed(&mut self, error: &str) -> (step: AttachStep)
        requires
            old(self)@.phase is Syncing || old(self)@.phase is Overriding,
        ensures
            ({
                let (after, s) = old(self)@.set_failed(error@);
                final(self)@ == after && step.is_step(old(self)@.registry, s)
            }),
    {
        proof {
            use_type_invariant(&*self);
        }
        match &self.phase {
            Phase::Overriding { endpoint, next } => {
                let endpoint = endpoint.clone();
                let name = self.state.overrides.key_at(*next - 1);
                let message = joined("GUC replay: SET ", name.as_str());
                let fatal = joined(
                    "pgferry: failed to replay session state: SET ",
                    name.as_str(),
                );
                self.phase = Phase::Deciding { fatal };
                AttachStep::Consult {
                    destroy: Some("attach: GUC replay failed"),
                    error: UpstreamError::Connect { endpoint, message },
                }
            },
            Phase::Syncing { endpoint, .. } => {
                let endpoint = endpoint.clone();
                let message = joined("parameter sync: ", error);
                let fatal = joined("pgferry: failed to prepare upstream connection: ", error);
                self.phase = Phase::Deciding { fatal };
                AttachStep::Consult {
                    destroy: Some("attach: parameter sync failed"),
                    error: UpstreamError::Connect { endpoint, message },
                }
            },
            _ => AttachStep::Route,
        }
    }

    /// The session's statements were prepared, or not.
    pub fn on_replayed(&mut self, ok: bool) -> (step: AttachStep)
        requires
            old(self)@.phase is Replaying,
        ensures
            ({
                let (after, s) = old(self)@.replayed(ok);
                final(self)@ == after && step.is_step(old(self)@.registry, s)
            }),
    {
        let endpoint = match &self.phase {
            Phase::Replaying { endpoint } => endpoint.clone(),
            _ => String::new(),
        };
        if ok {
            self.dirtied = true;
            self.phase = Phase::Over;
            AttachStep::Connected { endpoint, dirtied: true }
        } else {
            self.phase = Phase::Deciding {
                fatal: "pgferry: failed to replay prepared statements".to_owned(),
            };
            AttachStep::Consult {
                destroy: Some("attach: statement replay failed"),
                error: UpstreamError::Connect {
                    endpoint,
                    message: "prepared statement replay failed".to_owned(),
                },
            }
        }
    }

    /// The error policy has decided. `None` stands for a session without an
    /// error policy, which is linked anew.
    pub fn on_decision(&mut self, decision: Option<RetryDecision>) -> (step: AttachStep)
        requires
            old(self)@.phase is Deciding,
        ensures
            ({
                let (after, s) = old(self)@.decided(decision);
                final(self)@ == after && step.is_step(old(self)@.registry, s)
            }),
    {
        if decision == Some(RetryDecision::Close) {
            let message = match &self.phase {
                Phase::Deciding { fatal } => fatal.clone(),
                _ => String::new(),
            };
            self.phase = Phase::Over;
            AttachStep::Fatal { message }
        } else if self.left <= 1 {
            self.phase = Phase::Over;
            AttachStep::Fatal { message: "pgferry: all upstream endpoints failed".to_owned() }
        } else {
            self.left = self.left - 1;
            self.phase = Phase::Routing;
            AttachStep::Route
        }
    }
}

// ---------------------------------------------------------------------------
// startup parameters without a lease
// ---------------------------------------------------------------------------

/// How far a probe has come.
#[verifier::ext_equal]
pub enum ProbePhaseView {
    Routing,
    Probing { endpoint: Seq<char> },
    Deciding { error: Seq<char> },
    Over,
}

/// The step to take next.
#[verifier::ext_equal]
pub enum ProbeStepView {
    /// Ask routing for an endpoint.
    Route,
    /// Get the baseline parameters of the endpoint's pool.
    Probe { endpoint: Seq<char> },
    /// Ask the error policy.
    Consult { error: intercept::UpstreamErrorView },
    /// The baseline parameters are known.
    Connected { endpoint: Seq<char> },
    /// The session cannot start; this is why.
    Failed { reason: Seq<char> },
}

/// The state of a probe.
#[verifier::ext_equal]
pub struct ProbeView {
    /// The ids of the route's endpoints.
    pub ids: Seq<Seq<char>>,
    /// Attempts left, the current one counted.
    pub left: nat,
    pub phase: ProbePhaseView,
}

impl ProbeView {
    /// Routing has picked an endpoint.
    pub open spec fn routed(self, id: Seq<char>) -> (ProbeView, ProbeStepView) {
        if text::first_index(self.ids, id) is Some {
            (
                ProbeView { phase: ProbePhaseView::Probing { endpoint: id }, ..self },
                ProbeStepView::Probe { endpoint: id },
            )
        } else {
            self.failed(unknown_endpoint(id))
        }
    }

    /// The probe ends without parameters.
    pub open spec fn failed(self, error: Seq<char>) -> (ProbeView, ProbeStepView) {
        (ProbeView { phase: ProbePhaseView::Over, ..self }, ProbeStepView::Failed { reason: error })
    }

    /// The pool's parameters are known, or could not be got.
    pub open spec fn probed(self, failure: Option<Seq<char>>) -> (ProbeView, ProbeStepView) {
        let endpoint = self.phase->endpoint;
        match failure {
            None => (
                ProbeView { phase: ProbePhaseView::Over, ..self },
                ProbeStepView::Connected { endpoint },
            ),
            Some(error) => (
                ProbeView { phase: ProbePhaseView::Deciding { error }, ..self },
                ProbeStepView::Consult {
                    error: intercept::UpstreamErrorView::Connect { endpoint, message: error },
                },
            ),
        }
    }

    /// The error policy has decided; without one routing picks again.
    pub open spec fn decided(self, decision: Option<RetryDecision>) -> (ProbeView, ProbeStepView) {
        if decision == Some(RetryDecision::Close) {
            self.failed(self.phase->error)
        } else if self.left <= 1 {
            self.failed("all upstream endpoints failed"@)
        } else {
            (
                ProbeView { left: (self.left - 1) as nat, phase: ProbePhaseView::Routing, ..self },
                ProbeStepView::Route,
            )
        }
    }
}

/// The step to take next.
pub enum ProbeStep {
    /// Ask routing for an endpoint.
    Route,
    /// Get the baseline parameters of the endpoint's pool.
    Probe { endpoint: String },
    /// Ask the error policy.
    Consult { error: UpstreamError },
    /// The baseline parameters are known.
    Connected { endpoint: String },
    /// The session cannot start; this is why.
    Failed { reason: String },
}

impl View for ProbeStep {
    type V = ProbeStepView;

    open spec fn view(&self) -> ProbeStepView {
        match self {
            ProbeStep::Route => ProbeStepView::Route,
            ProbeStep::Probe { endpoint } => ProbeStepView::Probe { endpoint: endpoint@ },
            ProbeStep::Consult { error } => ProbeStepView::Consult { error: error@ },
            ProbeStep::Connected { endpoint } => ProbeStepView::Connected { endpoint: endpoint@ },
            ProbeStep::Failed { reason } => ProbeStepView::Failed { reason: reason@ },
        }
    }
}

enum ProbePhase {
    Routing,
    Probing { endpoint: String },
    Deciding { error: String },
    Over,
}

closed spec fn probe_phase_view(p: ProbePhase) -> ProbePhaseView {
    match p {
        ProbePhase::Routing => ProbePhaseView::Routing,
        ProbePhase::Probing { endpoint } => ProbePhaseView::Probing { endpoint: endpoint@ },
        ProbePhase::Deciding { error } => ProbePhaseView::Deciding { error: error@ },
        ProbePhase::Over => ProbePhaseView::Over,
    }
}

/// Finding the startup parameters for a session that leases no connection
/// yet: route once, ask that endpoint's pool for its baseline, and go through
/// the error policy like an attach.
pub struct BaselineProbe<'a> {
    route: &'a RouteConfig,
    left: usize,
    phase: ProbePhase,
}

impl<'a> View for BaselineProbe<'a> {
    type V = ProbeView;

    closed spec fn view(&self) -> ProbeView {
        ProbeView {
            ids: config::endpoint_ids(self.route.endpoints@),
            left: self.left as nat,
            phase: probe_phase_view(self.phase),
        }
    }
}

impl<'a> BaselineProbe<'a> {
    /// Start to probe.
    pub fn new(route: &'a RouteConfig) -> (r: (BaselineProbe<'a>, ProbeStep))
        ensures
            r.0@ == (ProbeView {
                ids: config::endpoint_ids(route.endpoints@),
                left: attempts_for(route.endpoints@.len()),
                phase: ProbePhaseView::Routing,
            }),
            r.1@ == ProbeStepView::Route,
    {
        let left: usize = attempts(route.endpoints.len());
        (BaselineProbe { route, left, phase: ProbePhase::Routing }, ProbeStep::Route)
    }

    /// Routing has picked this endpoint.
    pub fn on_routed(&mut self, id: &str) -> (step: ProbeStep)
        ensures
            (final(self)@, step@) == old(self)@.routed(id@),
    {
        if config::endpoint_position(self.route.endpoints.as_slice(), id).is_some() {
            self.phase = ProbePhase::Probing { endpoint: id.to_owned() };
            ProbeStep::Probe { endpoint: id.to_owned() }
        } else {
            self.phase = ProbePhase::Over;
            ProbeStep::Failed { reason: unknown_endpoint_text(id) }
        }
    }

    /// The pool's parameters are known, or could not be got for this reason.
    pub fn on_probed(&mut self, failure: Option<&str>) -> (step: ProbeStep)
        requires
            old(self)@.phase is Probing,
        ensures
            (final(self)@, step@) == old(self)@.probed(text::opt_str(failure)),
    {
        let endpoint = match &self.phase {
            ProbePhase::Probing { endpoint } => endpoint.clone(),
            _ => String::new(),
        };
        match failure {
            None => {
                self.phase = ProbePhase::Over;
                ProbeStep::Connected { endpoint }
            },
            Some(error) => {
                self.phase = ProbePhase::Deciding { error: error.to_owned() };
                ProbeStep::Consult {
                    error: UpstreamError::Connect { endpoint, message: error.to_owned() },
                }
            },
        }
    }

    /// The error policy has decided. `None` stands for a session without an
    /// error policy.
    pub fn on_decision(&mut self, decision: Option<RetryDecision>) -> (step: ProbeStep)
        requires
            old(self)@.phase is Deciding,
        ensures
            (final(self)@, step@) == old(self)@.decided(decision),
    {
        if decision == Some(RetryDecision::Close) {
            let error = match &self.phase {
                ProbePhase::Deciding { error } => error.clone(),
                _ => String::new(),
            };
            self.phase = ProbePhase::Over;
            ProbeStep::Failed { reason: error }
        } else if self.left <= 1 {
            self.phase = ProbePhase::Over;
            ProbeStep::Failed { reason: "all upstream endpoints failed".to_owned() }
        } else {
            self.left = self.left - 1;
            self.phase = ProbePhase::Routing;
            ProbeStep::Route
        }
    }
}

// ---------------------------------------------------------------------------
// laws
// ---------------------------------------------------------------------------

/// Attempts are bounded: routing is asked again only with one attempt fewer
/// left, and when the last one fails the attach fails. Nothing else changes
/// the number of attempts.
pub proof fn law_attempts_bounded(
    s: AttachView,
    decision: Option<RetryDecision>,
    current: Map<Seq<char>, String>,
    word: Seq<char>,
    ok: bool,
)
    ensures
        ({
            let (t, st) = s.decided(decision);
            &&& st is Route ==> t.left == s.left - 1
            &&& st is Route || st is Fatal
            &&& s.left <= 1 ==> st is Fatal
            &&& decision == Some(RetryDecision::Close) ==> st is Fatal
        }),
        s.routed(word).0.left == s.left,
        s.checkout_failed(word).0.left == s.left,
        s.proceed(current).0.left == s.left,
        s.set_completed(current).0.left == s.left,
        s.set_failed(word).0.left == s.left,
        s.replayed(ok).0.left == s.left,
{
    lemma_proceed_keeps(s, current);
    lemma_proceed_keeps(
        AttachView { dirtied: s.dirtied || s.phase is Overriding, ..s },
        current,
    );
}

/// What putting state on a connection keeps.
proof fn lemma_proceed_keeps(s: AttachView, current: Map<Seq<char>, String>)
    ensures
        s.proceed(current).0.left == s.left,
    decreases
            match s.phase {
                PhaseView::CheckingOut { .. } => 3int,
                PhaseView::Syncing { .. } => 2int,
                PhaseView::Overriding { .. } => 1int,
                _ => 0int,
            },
            match s.phase {
                PhaseView::Syncing { next, .. } => 2 - next,
                PhaseView::Overriding { next, .. } => s.names.len() - next,
                _ => 0int,
            },
{
    match s.phase {
        PhaseView::CheckingOut { endpoint } => {
            lemma_proceed_keeps(
                AttachView { phase: PhaseView::Syncing { endpoint, next: 0 }, ..s },
                current,
            );
        },
        PhaseView::Syncing { endpoint, next } => {
            if next >= 2 {
                lemma_proceed_keeps(
                    AttachView { phase: PhaseView::Overriding { endpoint, next: 0 }, ..s },
                    current,
                );
            } else if !s.startup_differs(next, current) {
                lemma_proceed_keeps(
                    AttachView { phase: PhaseView::Syncing { endpoint, next: next + 1 }, ..s },
                    current,
                );
            }
        },
        PhaseView::Overriding { endpoint, next } => {
            if next < s.names.len() && !s.override_differs(next, current) {
                lemma_proceed_keeps(
                    AttachView { phase: PhaseView::Overriding { endpoint, next: next + 1 }, ..s },
                    current,
                );
            }
        },
        _ => {},
    }
}

/// A parameter value set earlier is never skipped: the attach goes past the
/// remaining ones only when the connection already has every one of them.
proof fn lemma_overrides_complete(
    s: AttachView,
    current: Map<Seq<char>, String>,
    endpoint: Seq<char>,
    next: nat,
)
    requires
        s.phase == (PhaseView::Overriding { endpoint, next }),
    ensures
        !(s.proceed(current).1 is Run) ==> forall|j: nat|
            next <= j < s.names.len() ==> !#[trigger] s.override_differs(j, current),
    decreases s.names.len() - next,
{
    if next < s.names.len() && !s.override_differs(next, current) {
        let t = AttachView { phase: PhaseView::Overriding { endpoint, next: next + 1 }, ..s };
        lemma_overrides_complete(t, current, endpoint, next + 1);
        if !(s.proceed(current).1 is Run) {
            assert forall|j: nat| next <= j < s.names.len() implies !#[trigger] s.override_differs(
                j,
                current,
            ) by {
                if j > next {
                    assert(!t.override_differs(j, current));
                }
            }
        }
    }
}

/// The session's state is complete on an attached connection: one that is
/// attached without another statement being run already has every startup
/// parameter and every parameter value the session has set, and the session
/// has no statements that it lacks.
pub proof fn law_attached_with_state(s: AttachView, current: Map<Seq<char>, String>)
    requires
        s.phase is CheckingOut,
    ensures
        !(s.proceed(current).1 is Run) ==> {
            &&& forall|i: nat| i < 2 ==> !#[trigger] s.startup_differs(i, current)
            &&& forall|j: nat| j < s.names.len() ==> !#[trigger] s.override_differs(j, current)
        },
        s.proceed(current).1 is Connected ==> s.registry == no_statements(),
{
    let endpoint = s.phase->CheckingOut_endpoint;
    let s0 = AttachView { phase: PhaseView::Syncing { endpoint, next: 0 }, ..s };
    let s1 = AttachView { phase: PhaseView::Syncing { endpoint, next: 1 }, ..s };
    let s2 = AttachView { phase: PhaseView::Syncing { endpoint, next: 2 }, ..s };
    let o = AttachView { phase: PhaseView::Overriding { endpoint, next: 0 }, ..s };
    assert(s.proceed(current) == s0.proceed(current));
    lemma_overrides_complete(o, current, endpoint, 0);
    if !(s.proceed(current).1 is Run) {
        assert(!s0.startup_differs(0, current));
        assert(s0.proceed(current) == s1.proceed(current));
        assert(!s1.startup_differs(1, current));
        assert(s1.proceed(current) == s2.proceed(current));
        assert(s2.proceed(current) == o.proceed(current));
        assert forall|i: nat| i < 2 implies !#[trigger] s.startup_differs(i, current) by {
            assert(i == 0 || i == 1);
        }
        assert forall|j: nat| j < s.names.len() implies !#[trigger] s.override_differs(
            j,
            current,
        ) by {
            assert(!o.override_differs(j, current));
        }
    }
    lemma_connected_without_statements(o, current);
}

/// Whether the server has taken a `SET`: the parameter has the value, and
/// every other one keeps its own.
pub open spec fn taken(
    before: Map<Seq<char>, String>,
    after: Map<Seq<char>, String>,
    name: Seq<char>,
    value: Seq<char>,
) -> bool {
    &&& pool::parameter(after, name) == value
    &&& forall|other: Seq<char>|
        other != name ==> #[trigger] pool::parameter(after, other) == pool::parameter(
            before,
            other,
        )
}

impl AttachView {
    /// Whether a connection with these parameters has every startup parameter
    /// that the session has not set to something else.
    pub open spec fn has_startup(self, current: Map<Seq<char>, String>) -> bool {
        forall|i: nat|
            i < 2 ==> self.names.contains(startup_name(i)) || !#[trigger] self.startup_differs(
                i,
                current,
            )
    }

    /// Whether a connection with these parameters has everything that has been
    /// put on it so far; once the parameters are done, that is the startup
    /// parameters and every value that the session has set.
    pub open spec fn carries(self, current: Map<Seq<char>, String>) -> bool {
        match self.phase {
            PhaseView::CheckingOut { .. } => true,
            PhaseView::Syncing { next, .. } => forall|i: nat|
                i < next && i < 2 ==> !#[trigger] self.startup_differs(i, current),
            PhaseView::Overriding { next, .. } => {
                &&& self.has_startup(current)
                &&& forall|j: nat|
                    j < next && j < self.names.len() ==> !#[trigger] self.override_differs(
                        j,
                        current,
                    )
            },
            _ => {
                &&& self.has_startup(current)
                &&& forall|j: nat|
                    j < self.names.len() ==> !#[trigger] self.override_differs(j, current)
            },
        }
    }

    /// The parameter and the value of the `SET` that is being run.
    pub open spec fn being_set(self) -> (Seq<char>, Seq<char>) {
        let name = match self.phase {
            PhaseView::Syncing { next, .. } => startup_name((next - 1) as nat),
            PhaseView::Overriding { next, .. } => self.names[next - 1],
            _ => Seq::empty(),
        };
        (
            name,
            if self.phase is Syncing {
                self.startup[name]@
            } else {
                self.overrides[name]@
            },
        )
    }
}

/// A session's parameters survive on every connection that it is attached to:
/// as long as the server takes each `SET`, what has been put on the connection
/// stays there while the rest is added, and when statements are replayed, or
/// the connection is handed over, it has all of them. A value that the session
/// has set wins over the startup packet.
pub proof fn law_parameters_put_on_connection(
    s: AttachView,
    current: Map<Seq<char>, String>,
    after: Map<Seq<char>, String>,
)
    requires
        s.names.no_duplicates(),
        s.phase is CheckingOut || s.phase is Syncing || s.phase is Overriding,
        s.carries(current),
    ensures
        ({
            let (t, st) = s.proceed(current);
            let (name, value) = t.being_set();
            match st {
                AttachStepView::Run { sql, .. } => {
                    &&& t.phase is Syncing || t.phase is Overriding
                    &&& sql == pool::set_sql(name, value)
                    &&& taken(current, after, name, value) ==> t.carries(after)
                },
                _ => {
                    &&& st is Replay || st is Connected
                    &&& t.carries(current)
                },
            }
        }),
    decreases
            match s.phase {
                PhaseView::CheckingOut { .. } => 3int,
                PhaseView::Syncing { .. } => 2int,
                PhaseView::Overriding { .. } => 1int,
                _ => 0int,
            },
            match s.phase {
                PhaseView::Syncing { next, .. } => 2 - next,
                PhaseView::Overriding { next, .. } => s.names.len() - next,
                _ => 0int,
            },
{
    let (t, st) = s.proceed(current);
    let (name, value) = t.being_set();
    match s.phase {
        PhaseView::CheckingOut { endpoint } => {
            law_parameters_put_on_connection(
                AttachView { phase: PhaseView::Syncing { endpoint, next: 0 }, ..s },
                current,
                after,
            );
        },
        PhaseView::Syncing { endpoint, next } => {
            if next >= 2 {
                let u = AttachView { phase: PhaseView::Overriding { endpoint, next: 0 }, ..s };
                assert forall|i: nat| i < 2 implies u.names.contains(startup_name(i))
                    || !#[trigger] u.startup_differs(i, current) by {
                    assert(!s.startup_differs(i, current));
                }
                law_parameters_put_on_connection(u, current, after);
            } else if s.startup_differs(next, current) {
                if taken(current, after, name, value) {
                    assert forall|i: nat| i < next + 1 && i < 2 implies !#[trigger] t.startup_differs(
                        i,
                        after,
                    ) by {
                        if i < next {
                            reveal_strlit("application_name");
                            reveal_strlit("client_encoding");
                            assert(startup_name(0).len() != startup_name(1).len());
                            assert(!s.startup_differs(i, current));
                        }
                    }
                }
            } else {
                let u = AttachView {
                    phase: PhaseView::Syncing { endpoint, next: next + 1 },
                    ..s
                };
                assert forall|i: nat| i < next + 1 && i < 2 implies !#[trigger] u.startup_differs(
                    i,
                    current,
                ) by {
                    assert(!s.startup_differs(i, current));
                }
                law_parameters_put_on_connection(u, current, after);
            }
        },
        PhaseView::Overriding { endpoint, next } => {
            if next >= s.names.len() {
                assert forall|i: nat| i < 2 implies t.names.contains(startup_name(i))
                    || !#[trigger] t.startup_differs(i, current) by {
                    assert(s.names.contains(startup_name(i)) || !s.startup_differs(i, current));
                }
                assert forall|j: nat| j < t.names.len() implies !#[trigger] t.override_differs(
                    j,
                    current,
                ) by {
                    assert(!s.override_differs(j, current));
                }
            } else if s.override_differs(next, current) {
                if taken(current, after, name, value) {
                    assert forall|i: nat| i < 2 implies t.names.contains(startup_name(i))
                        || !#[trigger] t.startup_differs(i, after) by {
                        assert(s.names.contains(startup_name(i)) || !s.startup_differs(i, current));
                    }
                    assert forall|j: nat| j < next + 1 && j < t.names.len() implies !#[trigger]
                    t.override_differs(j, after) by {
                        if j < next {
                            assert(!s.override_differs(j, current));
                            assert(s.names[j as int] != s.names[next as int]);
                        }
                    }
                }
            } else {
                let u = AttachView {
                    phase: PhaseView::Overriding { endpoint, next: next + 1 },
                    ..s
                };
                assert forall|i: nat| i < 2 implies u.names.contains(startup_name(i))
                    || !#[trigger] u.startup_differs(i, current) by {
                    assert(s.names.contains(startup_name(i)) || !s.startup_differs(i, current));
                }
                assert forall|j: nat| j < next + 1 && j < u.names.len() implies !#[trigger]
                u.override_differs(j, current) by {
                    assert(!s.override_differs(j, current));
                }
                law_parameters_put_on_connection(u, current, after);
            }
        },
        _ => {},
    }
}

proof fn lemma_connected_without_statements(s: AttachView, current: Map<Seq<char>, String>)
    requires
        s.phase is Overriding,
    ensures
        s.proceed(current).1 is Connected ==> s.registry == no_statements(),
    decreases s.names.len() - s.phase->Overriding_next,
{
    match s.phase {
        PhaseView::Overriding { endpoint, next } => {
            if next < s.names.len() && !s.override_differs(next, current) {
                lemma_connected_without_statements(
                    AttachView { phase: PhaseView::Overriding { endpoint, next: next + 1 }, ..s },
                    current,
                );
            }
        },
        _ => {},
    }
}

/// A route is tried twice per endpoint, and never less than twice.
pub proof fn law_attempts(endpoints: nat)
    requires
        2 * endpoints <= usize::MAX,
    ensures
        attempts_for(endpoints) >= 2,
        endpoints > 0 ==> attempts_for(endpoints) == endpoints + endpoints,
{
}

/// An endpoint of the route is checked out as routing picked it; any other ends
/// the attach, and the client is told its name.
pub proof fn law_routed(s: AttachView, id: Seq<char>)
    ensures
        ({
            let (t, step) = s.routed(id);
            &&& s.ids.contains(id) ==> step == (AttachStepView::Checkout { endpoint: id })
                && t.phase == (PhaseView::CheckingOut { endpoint: id })
            &&& !s.ids.contains(id) ==> t.phase is Over && step == (AttachStepView::Fatal {
                message: "pgferry: "@ + ("unknown upstream endpoint "@ + text::quoted_text(id)),
            })
            &&& t == (AttachView { phase: t.phase, ..s })
        }),
{
    text::law_first_index(s.ids, id);
    if s.ids.contains(id) {
        let i = choose|i: int| 0 <= i < s.ids.len() && s.ids[i] == id;
        assert(s.ids[i] == id);
    }
}

/// The endpoint whose connection is being prepared.
pub open spec fn endpoint_of(phase: PhaseView) -> Option<Seq<char>> {
    match phase {
        PhaseView::CheckingOut { endpoint } => Some(endpoint),
        PhaseView::Syncing { endpoint, .. } => Some(endpoint),
        PhaseView::Overriding { endpoint, .. } => Some(endpoint),
        PhaseView::Replaying { endpoint } => Some(endpoint),
        _ => None,
    }
}

/// Preparing a connection stays with its endpoint from the checkout to the end,
/// where the session is attached to that endpoint and no other; on the way the
/// session's own state is only read.
pub proof fn law_prepared_where_checked_out(s: AttachView, current: Map<Seq<char>, String>)
    requires
        s.phase is CheckingOut || s.phase is Syncing || s.phase is Overriding,
    ensures
        ({
            let (t, step) = s.proceed(current);
            &&& step matches AttachStepView::Connected { endpoint, dirtied } ==> Some(endpoint)
                == endpoint_of(s.phase) && dirtied == s.dirtied && t.phase is Over
            &&& !(step is Connected) ==> endpoint_of(t.phase) == endpoint_of(s.phase)
            &&& step is Replay <==> t.phase is Replaying
            &&& step is Run <==> t.phase is Syncing || t.phase is Overriding
            &&& step is Replay ==> s.registry != no_statements()
            &&& step is Run || step is Replay || step is Connected
            &&& step matches AttachStepView::Run { cache, .. } ==> (cache is Some
                <==> t.phase is Syncing)
            &&& step matches AttachStepView::Run { cache: Some(c), .. } ==> c == t.being_set()
            &&& t == (AttachView { phase: t.phase, ..s })
        }),
    decreases
            match s.phase {
                PhaseView::CheckingOut { .. } => 3int,
                PhaseView::Syncing { .. } => 2int,
                PhaseView::Overriding { .. } => 1int,
                _ => 0int,
            },
            match s.phase {
                PhaseView::Syncing { next, .. } => 2 - next,
                PhaseView::Overriding { next, .. } => s.names.len() - next,
                _ => 0int,
            },
{
    match s.phase {
        PhaseView::CheckingOut { endpoint } => {
            law_prepared_where_checked_out(
                AttachView { phase: PhaseView::Syncing { endpoint, next: 0 }, ..s },
                current,
            );
        },
        PhaseView::Syncing { endpoint, next } => {
            if next >= 2 {
                law_prepared_where_checked_out(
                    AttachView { phase: PhaseView::Overriding { endpoint, next: 0 }, ..s },
                    current,
                );
            } else if !s.startup_differs(next, current) {
                law_prepared_where_checked_out(
                    AttachView { phase: PhaseView::Syncing { endpoint, next: next + 1 }, ..s },
                    current,
                );
            }
        },
        PhaseView::Overriding { endpoint, next } => {
            if next < s.names.len() && !s.override_differs(next, current) {
                law_prepared_where_checked_out(
                    AttachView { phase: PhaseView::Overriding { endpoint, next: next + 1 }, ..s },
                    current,
                );
            }
        },
        _ => {},
    }
}

/// A connection is handed over as dirtied exactly when a value that the session
/// set, or one of its statements, was put on one: startup parameters alone leave
/// it clean.
pub proof fn law_dirtied_by_session_state(s: AttachView, current: Map<Seq<char>, String>)
    ensures
        s.phase is Overriding ==> s.set_completed(current).0.dirtied,
        s.phase is Syncing ==> s.set_completed(current) == s.proceed(current),
        s.phase is Syncing ==> s.set_completed(current).0.dirtied == s.dirtied,
        s.phase matches PhaseView::Replaying { endpoint } ==> s.replayed(true).1
            == (AttachStepView::Connected { endpoint, dirtied: true })
            && s.replayed(true).0.phase is Over,
{
    let t = AttachView { dirtied: s.dirtied || s.phase is Overriding, ..s };
    if s.phase is Syncing || s.phase is Overriding {
        law_prepared_where_checked_out(t, current);
    }
    if s.phase is Syncing {
        assert(t == s);
    }
}

/// A failure on the way goes to the error policy, with the endpoint that it is
/// about; a connection that was checked out is destroyed, and one that was not
/// there is not. Nothing else about the attach changes.
pub proof fn law_failures_consulted(s: AttachView, error: Seq<char>)
    ensures
        ({
            let (t, step) = s.checkout_failed(error);
            s.phase matches PhaseView::CheckingOut { endpoint } ==> {
                &&& step == (AttachStepView::Consult {
                    destroy: None,
                    error: intercept::UpstreamErrorView::Connect { endpoint, message: error },
                })
                &&& t.phase == (PhaseView::Deciding {
                    fatal: "pgferry: failed to connect to upstream: "@ + error,
                })
                &&& t == (AttachView { phase: t.phase, ..s })
            }
        }),
        ({
            let (t, step) = s.set_failed(error);
            s.phase is Syncing || s.phase is Overriding ==> {
                &&& step matches AttachStepView::Consult {
                    destroy: Some(_),
                    error: intercept::UpstreamErrorView::Connect { endpoint, .. },
                }
                &&& Some(endpoint) == endpoint_of(s.phase)
                &&& t.phase is Deciding
                &&& t == (AttachView { phase: t.phase, ..s })
            }
        }),
        s.phase is Syncing ==> s.set_failed(error).0.phase == (PhaseView::Deciding {
            fatal: "pgferry: failed to prepare upstream connection: "@ + error,
        }),
        s.phase is Overriding ==> s.set_failed(error).0.phase == (PhaseView::Deciding {
            fatal: "pgferry: failed to replay session state: SET "@ + s.being_set().0,
        }),
        ({
            let (t, step) = s.replayed(false);
            s.phase is Replaying ==> {
                &&& step matches AttachStepView::Consult {
                    destroy: Some(_),
                    error: intercept::UpstreamErrorView::Connect { endpoint, .. },
                }
                &&& Some(endpoint) == endpoint_of(s.phase)
                &&& t.phase == (PhaseView::Deciding {
                    fatal: "pgferry: failed to replay prepared statements"@,
                })
                &&& t == (AttachView { phase: t.phase, ..s })
            }
        }),
{
}

/// The error policy has the word: told to close, the client hears about that
/// failure; otherwise routing picks again while attempts are left.
pub proof fn law_attach_decided(s: AttachView, fatal: Seq<char>, decision: Option<RetryDecision>)
    requires
        s.phase == (PhaseView::Deciding { fatal }),
    ensures
        s.decided(Some(RetryDecision::Close)).1 == (AttachStepView::Fatal { message: fatal }),
        decision != Some(RetryDecision::Close) && s.left > 1 ==> s.decided(decision) == (
            AttachView { left: (s.left - 1) as nat, phase: PhaseView::Routing, ..s },
            AttachStepView::Route,
        ),
        decision != Some(RetryDecision::Close) && s.left <= 1 ==> s.decided(decision).1
            == (AttachStepView::Fatal { message: "pgferry: all upstream endpoints failed"@ }),
{
}

/// The probe for baseline parameters goes the same way without a connection of
/// its own: the endpoint that was picked is probed, a failure goes to the error
/// policy with that endpoint, and attempts are bounded.
pub proof fn law_probe(
    s: ProbeView,
    id: Seq<char>,
    error: Seq<char>,
    decision: Option<RetryDecision>,
)
    ensures
        s.ids.contains(id) ==> s.routed(id) == (
            ProbeView { phase: ProbePhaseView::Probing { endpoint: id }, ..s },
            ProbeStepView::Probe { endpoint: id },
        ),
        !s.ids.contains(id) ==> s.routed(id) == (
            ProbeView { phase: ProbePhaseView::Over, ..s },
            ProbeStepView::Failed {
                reason: "unknown upstream endpoint "@ + text::quoted_text(id),
            },
        ),
        s.phase == (ProbePhaseView::Probing { endpoint: id }) ==> {
            &&& s.probed(None) == (
                ProbeView { phase: ProbePhaseView::Over, ..s },
                ProbeStepView::Connected { endpoint: id },
            )
            &&& s.probed(Some(error)) == (
                ProbeView { phase: ProbePhaseView::Deciding { error }, ..s },
                ProbeStepView::Consult {
                    error: intercept::UpstreamErrorView::Connect { endpoint: id, message: error },
                },
            )
        },
        s.phase == (ProbePhaseView::Deciding { error }) ==> {
            &&& s.decided(Some(RetryDecision::Close)).1 == (ProbeStepView::Failed { reason: error })
            &&& decision != Some(RetryDecision::Close) && s.left > 1 ==> s.decided(decision) == (
                ProbeView { left: (s.left - 1) as nat, phase: ProbePhaseView::Routing, ..s },
                ProbeStepView::Route,
            )
            &&& decision != Some(RetryDecision::Close) && s.left <= 1 ==> s.decided(decision).1
                == (ProbeStepView::Failed { reason: "all upstream endpoints failed"@ })
        },
{
    text::law_first_index(s.ids, id);
    if s.ids.contains(id) {
        let i = choose|i: int| 0 <= i < s.ids.len() && s.ids[i] == id;
        assert(s.ids[i] == id);
    }
}

} // verus!
