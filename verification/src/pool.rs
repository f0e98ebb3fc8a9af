//! Upstream connection pooling.
//!
//! One [`Pool`] per [`PoolKey`] (route, endpoint, user, database), found
//! through a shared [`PoolManager`]. A session *checks out* an upstream
//! connection and *checks it in* when it is done with it:
//!
//! - checkout: take the most recently parked idle connection (probing it if
//!   it has been idle beyond `stale_after`), else connect a new one, waiting
//!   while the pool is at `max_size`;
//! - checkin: bring the connection back to a neutral state (see
//!   [`sanitize`]), then park it;
//! - a sweep closes connections idle beyond `idle_timeout` or older than
//!   `max_lifetime`.
//!
//! The pool holds the bookkeeping; opening, probing and closing connections
//! is its caller's work. `C` is whatever stands for a connection.

use vstd::prelude::*;

use crate::text;
use crate::textmap::TextMap;
use crate::time;
use crate::time::{Nanos, SECOND};
use crate::wire;
use crate::wire::{BackendMessage, TransactionStatus, UpstreamEvent};

pub mod sanitize;

verus! {

/// How long bringing a connection back to a neutral state may take before it
/// is dropped.
pub const SANITIZE_TIMEOUT: Nanos = 30_000_000_000;

/// How long a liveness probe at checkout may take.
pub const PROBE_TIMEOUT: Nanos = 5_000_000_000;

/// How long to wait for a canceled query's terminal messages before falling
/// back to sending `Sync`.
pub const CANCEL_DRAIN_TIMEOUT: Nanos = 250_000_000;

/// Startup parameters replayed onto a reused connection with `SET`.
///
/// These are not part of what a connection is made with: the state of every
/// pooled connection after its reset then stays the server default, so a
/// fresh and a reused connection behave identically.
pub const TRACKED_STARTUP_PARAMETERS: [&'static str; 2] = ["application_name", "client_encoding"];

/// Identifies a group of interchangeable upstream connections: one pool per
/// route, endpoint, user and database.
#[derive(Debug, Clone, PartialEq, Eq, Hash)]
pub struct PoolKey {
    pub route: String,
    pub endpoint: String,
    pub user: String,
    pub database: Option<String>,
}

/// The view of a pool key.
#[verifier::ext_equal]
pub struct KeyView {
    pub route: Seq<char>,
    pub endpoint: Seq<char>,
    pub user: Seq<char>,
    pub database: Option<Seq<char>>,
}

impl View for PoolKey {
    type V = KeyView;

    open spec fn view(&self) -> KeyView {
        KeyView {
            route: self.route@,
            endpoint: self.endpoint@,
            user: self.user@,
            database: text::opt_text(self.database),
        }
    }
}

impl PoolKey {
    /// Whether two keys are the same.
    pub fn same(&self, other: &PoolKey) -> (r: bool)
        ensures
            r == (self@ == other@),
    {
        let database = match (&self.database, &other.database) {
            (Some(a), Some(b)) => text::same_text(a.as_str(), b.as_str()),
            (None, None) => true,
            _ => false,
        };
        text::same_text(self.route.as_str(), other.route.as_str()) && text::same_text(
            self.endpoint.as_str(),
            other.endpoint.as_str(),
        ) && text::same_text(self.user.as_str(), other.user.as_str()) && database
    }
}

/// When upstream connections are leased relative to the session's lifecycle.
#[derive(Debug, Clone, Copy, PartialEq, Eq, Structural)]
pub enum PoolMode {
    /// One upstream connection per session.
    Session,
    /// Lease on the first query of a cycle; release when the session returns
    /// to `ReadyForQuery` with no transaction open. Many sessions share fewer
    /// upstream connections.
    ///
    /// Unsupported in this mode: temporary tables, persistent `LISTEN`, and
    /// `SET` of parameters that the server does not report.
    Transaction,
}

impl Default for PoolMode {
    fn default() -> (r: Self)
        ensures
            r == PoolMode::Session,
    {
        PoolMode::Session
    }
}

/// Pool tuning knobs.
#[derive(Debug, Clone, Copy, PartialEq, Eq, Structural)]
pub struct PoolConfig {
    /// Pooling mode.
    pub mode: PoolMode,
    /// Maximum number of upstream connections (idle + checked out) per pool.
    pub max_size: usize,
    /// Idle connections are closed by the sweep after this long.
    pub idle_timeout: Nanos,
    /// Connections older than this are closed.
    pub max_lifetime: Nanos,
    /// Idle connections older than this are probed on checkout.
    pub stale_after: Nanos,
    /// Time between sweeps.
    pub sweep_interval: Nanos,
}

impl Default for PoolConfig {
    fn default() -> (r: Self)
        ensures
            r == (PoolConfig {
                mode: PoolMode::Session,
                max_size: 16,
                idle_timeout: (600 * SECOND) as Nanos,
                max_lifetime: (3600 * SECOND) as Nanos,
                stale_after: (30 * SECOND) as Nanos,
                sweep_interval: (15 * SECOND) as Nanos,
            }),
    {
        PoolConfig {
            mode: PoolMode::Session,
            max_size: 16,
            idle_timeout: 600 * SECOND,
            max_lifetime: 3600 * SECOND,
            stale_after: 30 * SECOND,
            sweep_interval: 15 * SECOND,
        }
    }
}

/// Hygiene state observed when a session ended: decides how the connection
/// returns to a neutral state.
#[derive(Debug, Clone, Copy, PartialEq, Eq, Structural)]
pub struct Hygiene {
    /// The server owes responses ending in `ReadyForQuery`: a `Query`,
    /// `Sync` or `Flush` was forwarded but the completing `ReadyForQuery`
    /// was not seen before the session ended, so a query may still be
    /// executing. Conservatively true is safe: canceling an idle backend is
    /// a no-op.
    pub awaiting_response: bool,
    /// COPY sub-protocol state.
    pub copy: CopyCleanup,
}

/// COPY sub-protocol state at the end of a session.
#[derive(Debug, Clone, Copy, PartialEq, Eq, Structural)]
pub enum CopyCleanup {
    /// No COPY in progress.
    Inactive,
    /// The server is waiting for copy data: abort with `CopyFail`.
    ClientOwesCopy,
    /// The server is streaming copy data: drain until the command completes.
    ServerStreamsCopy,
}

impl Default for CopyCleanup {
    fn default() -> (r: Self)
        ensures
            r == CopyCleanup::Inactive,
    {
        CopyCleanup::Inactive
    }
}

impl Default for Hygiene {
    fn default() -> (r: Self)
        ensures
            r == (Hygiene { awaiting_response: false, copy: CopyCleanup::Inactive }),
    {
        Hygiene { awaiting_response: false, copy: CopyCleanup::Inactive }
    }
}

/// Pool counters. All but the last two are cumulative since startup and wrap
/// around.
#[derive(Debug, Clone, Copy, PartialEq, Eq, Structural)]
pub struct PoolMetrics {
    pub checkouts: u64,
    pub reused: u64,
    pub created: u64,
    pub checked_in: u64,
    pub dropped: u64,
    pub probed: u64,
    pub evicted: u64,
    /// Connections currently checked out.
    pub active: i64,
    /// Sessions currently waiting for a connection.
    pub waiting: i64,
}

impl Default for PoolMetrics {
    fn default() -> (r: Self)
        ensures
            r == PoolMetrics::zero(),
    {
        PoolMetrics {
            checkouts: 0,
            reused: 0,
            created: 0,
            checked_in: 0,
            dropped: 0,
            probed: 0,
            evicted: 0,
            active: 0,
            waiting: 0,
        }
    }
}

/// A wrapping counter, `n` further.
pub open spec fn counted(counter: u64, n: int) -> u64 {
    ((counter + n) % 0x1_0000_0000_0000_0000) as u64
}

impl PoolMetrics {
    /// All counters at zero.
    pub open spec fn zero() -> PoolMetrics {
        PoolMetrics {
            checkouts: 0,
            reused: 0,
            created: 0,
            checked_in: 0,
            dropped: 0,
            probed: 0,
            evicted: 0,
            active: 0,
            waiting: 0,
        }
    }
}

fn count(counter: u64) -> (r: u64)
    ensures
        r == counted(counter, 1),
{
    counter.wrapping_add(1)
}

// ---------------------------------------------------------------------------
// parameters
// ---------------------------------------------------------------------------

/// The statement that sets a session parameter.
pub open spec fn set_sql(name: Seq<char>, value: Seq<char>) -> Seq<char> {
    "SET "@ + name + " = '"@ + text::replace_char(value, '\'', "''"@) + "'"@
}

/// The statement that sets a session parameter: the value is quoted, with
/// every quote in it doubled.
pub fn set_parameter_sql(name: &str, value: &str) -> (r: String)
    ensures
        r@ == set_sql(name@, value@),
{
    let mut r = "SET ".to_owned();
    r.append(name);
    r.append(" = '");
    r.append(text::replaced(value, '\'', "''").as_str());
    r.append("'");
    r
}

/// What a quoted literal stands for, read up to its closing quote: two quotes
/// in a row stand for one.
pub open spec fn literal_value(s: Seq<char>) -> Option<Seq<char>>
    decreases s.len(),
{
    if s.len() == 0 {
        None
    } else if s[0] != '\'' {
        match literal_value(s.skip(1)) {
            Some(rest) => Some(seq![s[0]] + rest),
            None => None,
        }
    } else if s.len() > 1 && s[1] == '\'' {
        match literal_value(s.skip(2)) {
            Some(rest) => Some(seq!['\''] + rest),
            None => None,
        }
    } else {
        Some(seq![])
    }
}

/// The front of a text with a character replaced.
proof fn lemma_replace_front(s: Seq<char>, c: char, with: Seq<char>)
    requires
        s.len() > 0,
    ensures
        text::replace_char(s, c, with) == (if s[0] == c {
            with
        } else {
            seq![s[0]]
        }) + text::replace_char(s.skip(1), c, with),
    decreases s.len(),
{
    let first = if s[0] == c {
        with
    } else {
        seq![s[0]]
    };
    if s.len() == 1 {
        assert(s.drop_last() =~= seq![]);
        assert(s.skip(1) =~= seq![]);
        assert(text::replace_char(s, c, with) =~= first + text::replace_char(s.skip(1), c, with));
    } else {
        lemma_replace_front(s.drop_last(), c, with);
        assert(s.drop_last().skip(1) =~= s.skip(1).drop_last());
        assert(s.skip(1).last() == s.last());
        assert(text::replace_char(s, c, with) =~= first + text::replace_char(s.skip(1), c, with));
    }
}

/// Whatever a value holds, the literal in the statement that sets it stands
/// for exactly that value and ends where the statement ends.
pub proof fn law_set_literal(value: Seq<char>)
    ensures
        literal_value(text::replace_char(value, '\'', "''"@) + "'"@) == Some(value),
    decreases value.len(),
{
    reveal_strlit("''");
    reveal_strlit("'");
    let quoted = text::replace_char(value, '\'', "''"@) + "'"@;
    if value.len() == 0 {
        assert(value =~= seq![]);
        assert(quoted =~= seq!['\'']);
    } else {
        law_set_literal(value.skip(1));
        lemma_replace_front(value, '\'', "''"@);
        let rest = text::replace_char(value.skip(1), '\'', "''"@) + "'"@;
        if value[0] == '\'' {
            assert(quoted =~= seq!['\'', '\''] + rest);
            assert(quoted.skip(2) =~= rest);
        } else {
            assert(quoted =~= seq![value[0]] + rest);
            assert(quoted.skip(1) =~= rest);
        }
        assert(seq![value[0]] + value.skip(1) =~= value);
    }
}

/// The value of a parameter; empty when it has none.
pub open spec fn parameter(parameters: Map<Seq<char>, String>, name: Seq<char>) -> Seq<char> {
    if parameters.contains_key(name) {
        parameters[name]@
    } else {
        Seq::empty()
    }
}

/// Whether the connection's parameters have `value` for `name`. An unknown
/// parameter counts as empty.
pub fn parameter_is(parameters: &TextMap<String>, name: &str, value: &str) -> (r: bool)
    ensures
        r == (parameter(parameters@, name@) == value@),
{
    match parameters.get(name) {
        Some(v) => text::same_text(v.as_str(), value),
        None => {
            assert(value@.len() == 0 ==> value@ =~= Seq::<char>::empty());
            text::is_blank(value)
        },
    }
}

// ---------------------------------------------------------------------------
// draining
// ---------------------------------------------------------------------------

/// What to do with a message while a connection is drained.
pub enum DrainStep {
    /// Wait for the next one.
    Continue,
    /// Note the connection's new parameter value, then wait for the next one.
    SetParameter { name: String, value: String },
    /// The connection is ready, in this transaction state.
    Ready(TransactionStatus),
    /// The connection cannot be used.
    Failed,
}

/// Whether this is what an event means while a connection is drained.
pub open spec fn drains(event: wire::UpstreamEventView, r: DrainStep) -> bool {
    match event {
        wire::UpstreamEventView::Message(wire::BackendView::ReadyForQuery { status }) => r
            == DrainStep::Ready(status),
        wire::UpstreamEventView::Message(
            wire::BackendView::ParameterStatus { name, value },
        ) => r matches DrainStep::SetParameter { name: n, value: v } && n@ == name && v@
            == value,
        wire::UpstreamEventView::Message(_) => r == DrainStep::Continue,
        _ => r == DrainStep::Failed,
    }
}

/// Consume everything up to and including `ReadyForQuery`.
pub fn drain(event: UpstreamEvent) -> (r: DrainStep)
    ensures
        drains(event@, r),
{
    match event {
        UpstreamEvent::Message(m) => match m {
            BackendMessage::ReadyForQuery { status } => DrainStep::Ready(status),
            BackendMessage::ParameterStatus { name, value } => DrainStep::SetParameter {
                name,
                value,
            },
            _ => DrainStep::Continue,
        },
        UpstreamEvent::Closed => DrainStep::Failed,
        UpstreamEvent::Broken(_) => DrainStep::Failed,
    }
}

// ---------------------------------------------------------------------------
// the pool
// ---------------------------------------------------------------------------

/// How to get the parameters of a connection in its neutral state.
pub enum Baseline<'a> {
    /// They are known.
    Known(&'a TextMap<String>),
    /// Check a connection out: they are its parameters. Then check it in,
    /// left behind like this.
    Probe { checkin: Hygiene },
}

/// An idle connection.
pub struct Parked<C> {
    pub conn: C,
    pub idle_since: Nanos,
    pub created_at: Nanos,
}

/// The connections of one [`PoolKey`].
///
/// A checkout goes through these states: it waits for a permit; with the
/// permit it seeks among the idle connections; it then holds a connection
/// (one being probed or opened counts as held) until checkin or destruction.
pub struct Pool<C> {
    key: PoolKey,
    config: PoolConfig,
    /// Idle connections, the most recently parked one last.
    idle: Vec<Parked<C>>,
    /// Parameters of a connection in its neutral state.
    baseline: Option<TextMap<String>>,
    metrics: PoolMetrics,
    /// Checkouts that have a permit and no connection yet.
    seeking: usize,
    /// Connections that are checked out, being probed or being opened.
    held: usize,
}

/// The view of a pool.
#[verifier::ext_equal]
#[verifier::reject_recursive_types(C)]
pub struct PoolView<C> {
    pub key: KeyView,
    pub config: PoolConfig,
    pub idle: Seq<Parked<C>>,
    pub baseline: Option<Map<Seq<char>, Seq<char>>>,
    pub metrics: PoolMetrics,
    pub seeking: nat,
    pub held: nat,
}

/// The view of optional parameters.
pub open spec fn opt_parameters(p: Option<TextMap<String>>) -> Option<Map<Seq<char>, Seq<char>>> {
    match p {
        Some(m) => Some(m@.map_values(|s: String| s@)),
        None => None,
    }
}

impl<C> View for Pool<C> {
    type V = PoolView<C>;

    closed spec fn view(&self) -> PoolView<C> {
        PoolView {
            key: self.key@,
            config: self.config,
            idle: self.idle@,
            baseline: opt_parameters(self.baseline),
            metrics: self.metrics,
            seeking: self.seeking as nat,
            held: self.held as nat,
        }
    }
}

/// How many connections a pool may have: at least one.
pub open spec fn capacity(config: PoolConfig) -> nat {
    if config.max_size == 0 {
        1
    } else {
        config.max_size as nat
    }
}

/// What a checkout does next.
pub enum Candidate<C> {
    /// This idle connection can be used.
    Ready { conn: C, created_at: Nanos },
    /// This idle connection has to be probed first.
    Probe { conn: C, created_at: Nanos },
    /// There is no idle connection: open a new one.
    Connect,
}

impl<C> PoolView<C> {
    /// The pool's bounds: idle connections and those held never exceed the
    /// capacity, nor do the permits handed out.
    pub open spec fn within_capacity(self) -> bool {
        &&& self.idle.len() + self.held <= capacity(self.config)
        &&& self.seeking + self.held <= capacity(self.config)
    }

    /// Whether a parked connection is too old to be used.
    pub open spec fn expired(self, p: Parked<C>, now: Nanos) -> bool {
        time::elapsed_at(p.created_at, now) > self.config.max_lifetime
    }

    /// Whether a parked connection has to be probed before it is used.
    pub open spec fn stale(self, p: Parked<C>, now: Nanos) -> bool {
        time::elapsed_at(p.idle_since, now) > self.config.stale_after
    }

    /// How many idle connections, counted from the most recently parked one,
    /// are too old before the first that is not.
    pub open spec fn expired_on_top(self, now: Nanos) -> nat
        decreases self.idle.len(),
    {
        if self.idle.len() == 0 || !self.expired(self.idle.last(), now) {
            0
        } else {
            1 + PoolView { idle: self.idle.drop_last(), ..self }.expired_on_top(now)
        }
    }

    /// Whether the sweep keeps a parked connection.
    pub open spec fn keeps(self, p: Parked<C>, now: Nanos) -> bool {
        &&& time::elapsed_at(p.idle_since, now) <= self.config.idle_timeout
        &&& time::elapsed_at(p.created_at, now) <= self.config.max_lifetime
    }

    /// The pool with a connection back. A clean one refreshes the baseline
    /// and is parked unless it is too old.
    pub open spec fn returned(
        self,
        clean: Option<Map<Seq<char>, Seq<char>>>,
        parked: Parked<C>,
        now: Nanos,
    ) -> PoolView<C> {
        let active = self.metrics.active;
        let m = PoolMetrics { active: wrapped_down(active), ..self.metrics };
        let s = PoolView { held: (self.held - 1) as nat, metrics: m, ..self };
        match clean {
            None => PoolView {
                metrics: PoolMetrics { dropped: counted(m.dropped, 1), ..m },
                ..s
            },
            Some(parameters) => if self.expired(parked, now) {
                PoolView {
                    baseline: Some(parameters),
                    metrics: PoolMetrics { evicted: counted(m.evicted, 1), ..m },
                    ..s
                }
            } else {
                PoolView {
                    baseline: Some(parameters),
                    idle: self.idle.push(parked),
                    metrics: PoolMetrics { checked_in: counted(m.checked_in, 1), ..m },
                    ..s
                }
            },
        }
    }
}

/// What happens to a pool during a checkout and after it.
impl<C> PoolView<C> {
    /// One more checkout waits for a permit.
    pub open spec fn one_more_waiting(self) -> PoolView<C> {
        let waiting = wrapped_up(self.metrics.waiting);
        PoolView { metrics: PoolMetrics { waiting, ..self.metrics }, ..self }
    }

    /// One checkout less waits for a permit.
    pub open spec fn one_less_waiting(self) -> PoolView<C> {
        let waiting = wrapped_down(self.metrics.waiting);
        PoolView { metrics: PoolMetrics { waiting, ..self.metrics }, ..self }
    }

    /// A waiting checkout has its permit.
    pub open spec fn permitted(self) -> PoolView<C> {
        PoolView { seeking: self.seeking + 1, ..self.one_less_waiting() }
    }

    /// The idle connections below those on top that are too old.
    pub open spec fn usable(self, now: Nanos) -> Seq<Parked<C>> {
        self.idle.take(self.idle.len() - self.expired_on_top(now))
    }

    /// A checkout has looked for an idle connection.
    pub open spec fn sought(self, now: Nanos) -> PoolView<C> {
        let left = self.usable(now);
        let probed = if left.len() > 0 && self.stale(left.last(), now) {
            1int
        } else {
            0int
        };
        PoolView {
            idle: if left.len() > 0 {
                left.drop_last()
            } else {
                left
            },
            seeking: (self.seeking - 1) as nat,
            held: self.held + 1,
            metrics: PoolMetrics {
                evicted: counted(self.metrics.evicted, self.expired_on_top(now) as int),
                probed: counted(self.metrics.probed, probed),
                ..self.metrics
            },
            ..self
        }
    }

    /// A probed connection turned out dead; its checkout goes on seeking.
    pub open spec fn probed_dead(self) -> PoolView<C> {
        PoolView { seeking: self.seeking + 1, ..self.not_opened() }
    }

    /// A connection could not be opened, and its checkout failed.
    pub open spec fn not_opened(self) -> PoolView<C> {
        let dropped = counted(self.metrics.dropped, 1);
        PoolView { metrics: PoolMetrics { dropped, ..self.metrics }, ..self.abandoned() }
    }

    /// A checkout gave up on the connection that it was about to get.
    pub open spec fn abandoned(self) -> PoolView<C> {
        PoolView { held: (self.held - 1) as nat, ..self }
    }

    /// A checkout has its connection, opened for it or not.
    pub open spec fn checked_out(self, created: bool) -> PoolView<C> {
        let made = if created {
            1int
        } else {
            0int
        };
        PoolView {
            metrics: PoolMetrics {
                created: counted(self.metrics.created, made),
                checkouts: counted(self.metrics.checkouts, 1),
                reused: counted(self.metrics.reused, 1),
                active: wrapped_up(self.metrics.active),
                ..self.metrics
            },
            ..self
        }
    }

    /// A checked-out connection was closed.
    pub open spec fn given_up(self) -> PoolView<C> {
        let dropped = counted(self.metrics.dropped, 1);
        let active = wrapped_down(self.metrics.active);
        PoolView { metrics: PoolMetrics { dropped, active, ..self.metrics }, ..self.abandoned() }
    }

    /// The idle connections that the sweep takes out, from the bottom up.
    pub open spec fn swept_out(self, now: Nanos) -> Seq<Parked<C>> {
        kept(self.idle, |p: Parked<C>| !self.keeps(p, now))
    }

    /// The idle connections were swept.
    pub open spec fn swept(self, now: Nanos) -> PoolView<C> {
        let gone = self.swept_out(now).len() as int;
        PoolView {
            idle: kept(self.idle, |p: Parked<C>| self.keeps(p, now)),
            metrics: PoolMetrics { evicted: counted(self.metrics.evicted, gone), ..self.metrics },
            ..self
        }
    }
}

/// A gauge one lower, wrapping at the end of its range.
pub open spec fn wrapped_down(gauge: i64) -> i64 {
    if gauge == i64::MIN {
        i64::MAX
    } else {
        (gauge - 1) as i64
    }
}

/// A gauge one higher, wrapping at the end of its range.
pub open spec fn wrapped_up(gauge: i64) -> i64 {
    if gauge == i64::MAX {
        i64::MIN
    } else {
        (gauge + 1) as i64
    }
}

fn gauge_down(gauge: i64) -> (r: i64)
    ensures
        r == wrapped_down(gauge),
{
    if gauge == i64::MIN {
        i64::MAX
    } else {
        gauge - 1
    }
}

fn gauge_up(gauge: i64) -> (r: i64)
    ensures
        r == wrapped_up(gauge),
{
    if gauge == i64::MAX {
        i64::MIN
    } else {
        gauge + 1
    }
}

// ---------------------------------------------------------------------------
// leases
// ---------------------------------------------------------------------------

/// A checked-out connection. It goes back through
/// [`UpstreamLease::checkin`] or [`UpstreamLease::checkin_detached`], or is
/// closed by [`UpstreamLease::destroy`]; either way its permit is free again.
pub struct UpstreamLease<C> {
    pub conn: C,
    pub created_at: Nanos,
}

impl<C> UpstreamLease<C> {
    /// Return the connection to its pool after a session has ended. `clean`
    /// holds the connection's parameters if it could be brought back to its
    /// neutral state; otherwise, and past `max_lifetime`, it is closed
    /// instead of parked. Returns the connection if it is to be closed.
    pub fn checkin(self, pool: &mut Pool<C>, clean: Option<TextMap<String>>, now: Nanos) -> (r:
        Option<C>)
        requires
            old(pool)@.held > 0,
        ensures
            final(pool)@ == old(pool)@.returned(
                opt_parameters(clean),
                (Parked { conn: self.conn, idle_since: now, created_at: self.created_at }),
                now,
            ),
            r == (if clean is Some && !old(pool)@.expired(
                (Parked { conn: self.conn, idle_since: now, created_at: self.created_at }),
                now,
            ) {
                None
            } else {
                Some(self.conn)
            }),
    {
        pool.take_back(self.conn, self.created_at, clean, now)
    }

    /// Return the connection to its pool in the middle of a session, at
    /// `ReadyForQuery` with nothing in flight. Only a connection that the
    /// session dirtied has to be reset; `reset` says whether that succeeded.
    /// Returns the connection if it is to be closed.
    pub fn checkin_detached(
        self,
        pool: &mut Pool<C>,
        dirty: bool,
        reset: bool,
        parameters: TextMap<String>,
        now: Nanos,
    ) -> (r: Option<C>)
        requires
            old(pool)@.held > 0,
        ensures
            final(pool)@ == old(pool)@.returned(
                if dirty && !reset {
                    None
                } else {
                    Some(parameters@.map_values(|s: String| s@))
                },
                (Parked { conn: self.conn, idle_since: now, created_at: self.created_at }),
                now,
            ),
            r == (if (!dirty || reset) && !old(pool)@.expired(
                (Parked { conn: self.conn, idle_since: now, created_at: self.created_at }),
                now,
            ) {
                None
            } else {
                Some(self.conn)
            }),
    {
        let clean = if dirty && !reset {
            None
        } else {
            Some(parameters)
        };
        pool.take_back(self.conn, self.created_at, clean, now)
    }

    /// Close the connection instead of returning it to its pool.
    pub fn destroy(self, pool: &mut Pool<C>) -> (r: C)
        requires
            old(pool)@.held > 0,
        ensures
            r == self.conn,
            final(pool)@ == old(pool)@.given_up(),
    {
        pool.give_up();
        self.conn
    }
}

/// A startup parameter that has to be set on a connection.
pub struct ParameterToSet {
    /// Its position among the startup parameters that are put on connections.
    pub index: usize,
    pub name: String,
    pub value: String,
    pub sql: String,
}

/// Whether a startup parameter has to be set on a connection with these
/// parameters: the startup packet has it, and the connection has another
/// value.
pub open spec fn startup_differs(
    startup: Map<Seq<char>, String>,
    current: Map<Seq<char>, String>,
    i: int,
) -> bool {
    let name = TRACKED_STARTUP_PARAMETERS[i]@;
    startup.contains_key(name) && parameter(current, name) != startup[name]@
}

/// Whether this is the next startup parameter to set, from position `from` on.
pub open spec fn to_set_next(
    startup: Map<Seq<char>, String>,
    current: Map<Seq<char>, String>,
    from: usize,
    r: Option<ParameterToSet>,
) -> bool {
    match r {
        Some(p) => {
            let name = TRACKED_STARTUP_PARAMETERS[p.index as int]@;
            &&& from <= p.index < 2
            &&& startup_differs(startup, current, p.index as int)
            &&& forall|j: int| from <= j < p.index ==> !startup_differs(startup, current, j)
            &&& p.name@ == name
            &&& p.value@ == startup[name]@
            &&& p.sql@ == set_sql(name, startup[name]@)
        },
        None => forall|j: int| from <= j < 2 ==> !startup_differs(startup, current, j),
    }
}

/// The first startup parameter, from position `from` on, that has to be set
/// on a connection with the parameters `current`.
pub fn sync_startup_parameters(
    startup: &TextMap<String>,
    current: &TextMap<String>,
    from: usize,
) -> (r: Option<ParameterToSet>)
    ensures
        to_set_next(startup@, current@, from, r),
{
    let mut i: usize = from;
    while i < 2
        invariant
            from <= i,
            forall|j: int| from <= j < i ==> !startup_differs(startup@, current@, j),
        decreases 2 - i,
    {
        let name = TRACKED_STARTUP_PARAMETERS[i];
        match startup.get(name) {
            Some(desired) => {
                if !parameter_is(current, name, desired.as_str()) {
                    return Some(
                        ParameterToSet {
                            index: i,
                            name: name.to_owned(),
                            value: desired.clone(),
                            sql: set_parameter_sql(name, desired.as_str()),
                        },
                    );
                }
            },
            None => {},
        }
        i += 1;
    }
    None
}

/// The most recently parked connection is the first to be used again: a
/// connection that was just returned, and is not too old, is on top of the
/// idle ones.
pub proof fn law_last_in_first_out<C>(
    s: PoolView<C>,
    parameters: Map<Seq<char>, Seq<char>>,
    parked: Parked<C>,
    now: Nanos,
    later: Nanos,
)
    requires
        !s.expired(parked, now),
        !s.expired(parked, later),
    ensures
        ({
            let t = s.returned(Some(parameters), parked, now);
            &&& t.idle.len() == s.idle.len() + 1
            &&& t.idle.last() == parked
            &&& t.expired_on_top(later) == 0
            &&& t.baseline == Some(parameters)
        }),
{
}

/// What the admin console and the metrics show of a pool.
#[derive(Debug, Clone)]
pub struct PoolStatus {
    pub key: PoolKey,
    pub metrics: PoolMetrics,
    pub idle: usize,
    pub max_size: usize,
}

/// The view of a pool's status.
#[verifier::ext_equal]
pub struct StatusView {
    pub key: KeyView,
    pub metrics: PoolMetrics,
    pub idle: nat,
    pub max_size: nat,
}

impl View for PoolStatus {
    type V = StatusView;

    open spec fn view(&self) -> StatusView {
        StatusView {
            key: self.key@,
            metrics: self.metrics,
            idle: self.idle as nat,
            max_size: self.max_size as nat,
        }
    }
}

/// The views of a list of statuses.
pub open spec fn status_views(s: Seq<PoolStatus>) -> Seq<StatusView> {
    s.map_values(|p: PoolStatus| p@)
}

impl<C> Pool<C> {
    /// What is shown of the pool.
    pub fn status(&self) -> (r: PoolStatus)
        ensures
            r@ == (StatusView {
                key: self@.key,
                metrics: self@.metrics,
                idle: self@.idle.len(),
                max_size: self@.config.max_size as nat,
            }),
    {
        PoolStatus {
            key: PoolKey {
                route: self.key.route.clone(),
                endpoint: self.key.endpoint.clone(),
                user: self.key.user.clone(),
                database: text::copy_opt(&self.key.database),
            },
            metrics: self.metrics,
            idle: self.idle.len(),
            max_size: self.config.max_size,
        }
    }
}

// ---------------------------------------------------------------------------
// the manager
// ---------------------------------------------------------------------------

/// The pools that exist, by key. `H` is whatever a pool is reached through.
pub struct PoolManager<H> {
    entries: Vec<(PoolKey, H)>,
}

/// The views of the keys.
closed spec fn key_views<H>(entries: Seq<(PoolKey, H)>) -> Seq<KeyView> {
    entries.map_values(|e: (PoolKey, H)| e.0@)
}

impl<H> PoolManager<H> {
    #[verifier::type_invariant]
    spec fn inv(&self) -> bool {
        key_views(self.entries@).no_duplicates()
    }

    /// The keys of the pools, in the order in which they were made.
    pub closed spec fn keys(&self) -> Seq<KeyView> {
        key_views(self.entries@)
    }

    /// The pools, in the order in which they were made.
    pub closed spec fn handles(&self) -> Seq<H> {
        self.entries@.map_values(|e: (PoolKey, H)| e.1)
    }

    /// No pools.
    pub fn new() -> (m: Self)
        ensures
            m.keys() == Seq::<KeyView>::empty(),
            m.handles() == Seq::<H>::empty(),
    {
        let m = PoolManager { entries: Vec::new() };
        assert(m.keys() =~= Seq::<KeyView>::empty());
        assert(m.handles() =~= Seq::<H>::empty());
        m
    }

    /// How many pools there are; no two have the same key.
    pub fn len(&self) -> (n: usize)
        ensures
            n == self.keys().len(),
            n == self.handles().len(),
            self.keys().no_duplicates(),
    {
        proof {
            use_type_invariant(self);
        }
        self.entries.len()
    }

    /// A pool by its position.
    pub fn pool_at(&self, i: usize) -> (h: &H)
        requires
            i < self.handles().len(),
        ensures
            *h == self.handles()[i as int],
    {
        &self.entries[i].1
    }

    /// The pool for `key`. A new key gets the pool `fresh`; an existing pool
    /// stays as it is, and `fresh` is dropped.
    pub fn get_or_create(&mut self, key: PoolKey, fresh: H) -> (i: usize)
        ensures
            i < final(self).handles().len(),
            final(self).keys()[i as int] == key@,
            old(self).keys().contains(key@) ==> {
                &&& final(self).keys() == old(self).keys()
                &&& final(self).handles() == old(self).handles()
            },
            !old(self).keys().contains(key@) ==> {
                &&& final(self).keys() == old(self).keys().push(key@)
                &&& final(self).handles() == old(self).handles().push(fresh)
                &&& i == old(self).handles().len()
            },
    {
        proof {
            use_type_invariant(&*self);
        }
        let ghost before = self.entries@;
        let ghost keys = self.keys();
        let mut i: usize = 0;
        while i < self.entries.len()
            invariant
                i <= self.entries.len(),
                self.entries@ == before,
                keys == key_views(before),
                forall|j: int| 0 <= j < i ==> #[trigger] keys[j] != key@,
            decreases self.entries.len() - i,
        {
            assert(keys[i as int] == before[i as int].0@);
            if self.entries[i].0.same(&key) {
                return i;
            }
            i += 1;
        }
        assert(!keys.contains(key@));
        let mut entries: Vec<(PoolKey, H)> = Vec::new();
        std::mem::swap(&mut entries, &mut self.entries);
        entries.push((key, fresh));
        assert(key_views(entries@) =~= keys.push(key@));
        self.entries = entries;
        assert(self.handles() =~= old(self).handles().push(fresh));
        i
    }
}

/// The items of a list that satisfy a test, in their order.
pub open spec fn kept<C>(
    items: Seq<Parked<C>>,
    keeps: spec_fn(Parked<C>) -> bool,
) -> Seq<Parked<C>> {
    items.filter(keeps)
}

impl<C> Pool<C> {
    #[verifier::type_invariant]
    spec fn inv(&self) -> bool {
        self@.within_capacity()
    }

    /// An empty pool.
    pub fn new(key: PoolKey, config: PoolConfig) -> (p: Self)
        ensures
            p@ == (PoolView::<C> {
                key: key@,
                config,
                idle: Seq::empty(),
                baseline: None,
                metrics: PoolMetrics::zero(),
                seeking: 0,
                held: 0,
            }),
    {
        Pool {
            key,
            config,
            idle: Vec::new(),
            baseline: None,
            metrics: PoolMetrics::default(),
            seeking: 0,
            held: 0,
        }
    }

    /// The pool's key.
    pub fn key(&self) -> (r: &PoolKey)
        ensures
            r@ == self@.key,
    {
        &self.key
    }

    /// The pool's configuration.
    pub fn config(&self) -> (r: PoolConfig)
        ensures
            r == self@.config,
    {
        self.config
    }

    /// The pool's counters.
    pub fn metrics(&self) -> (r: PoolMetrics)
        ensures
            r == self@.metrics,
    {
        self.metrics
    }

    /// Number of idle (parked) connections.
    pub fn idle_len(&self) -> (r: usize)
        ensures
            r == self@.idle.len(),
    {
        self.idle.len()
    }

    /// Configured maximum number of upstream connections.
    pub fn max_size(&self) -> (r: usize)
        ensures
            r == self@.config.max_size,
    {
        self.config.max_size
    }

    /// How many permits the pool has in all.
    pub fn permits(&self) -> (r: usize)
        ensures
            r == capacity(self@.config),
    {
        if self.config.max_size == 0 {
            1
        } else {
            self.config.max_size
        }
    }

    /// Whether a permit is free.
    pub fn has_permit(&self) -> (r: bool)
        ensures
            r == (self@.seeking + self@.held < capacity(self@.config)),
    {
        proof {
            use_type_invariant(self);
        }
        self.seeking < self.permits() - self.held
    }

    /// How many checkouts have a permit and no connection yet, and how many
    /// connections are held. Of every pool, at every time: idle and held
    /// connections together, and the permits handed out, are within the
    /// capacity.
    pub fn in_use(&self) -> (r: (usize, usize))
        ensures
            r.0 == self@.seeking,
            r.1 == self@.held,
            self@.within_capacity(),
    {
        proof {
            use_type_invariant(self);
        }
        (self.seeking, self.held)
    }

    /// How to get the parameters of a connection in its neutral state. They
    /// are captured at checkin; a cold pool has to probe one connection.
    pub fn baseline_params(&self) -> (r: Baseline<'_>)
        ensures
            match r {
                Baseline::Known(p) => self@.baseline == Some(p@.map_values(|s: String| s@)),
                Baseline::Probe { checkin } => self@.baseline is None && checkin == (Hygiene {
                    awaiting_response: false,
                    copy: CopyCleanup::Inactive,
                }),
            },
    {
        match &self.baseline {
            Some(p) => Baseline::Known(p),
            None => Baseline::Probe {
                checkin: Hygiene { awaiting_response: false, copy: CopyCleanup::Inactive },
            },
        }
    }

    /// A checkout starts to wait for a permit.
    pub fn start_waiting(&mut self)
        ensures
            final(self)@ == old(self)@.one_more_waiting(),
    {
        proof {
            use_type_invariant(&*self);
        }
        let waiting: i64 = gauge_up(self.metrics.waiting);
        self.metrics = PoolMetrics { waiting, ..self.metrics };
    }

    /// A waiting checkout gets a permit.
    pub fn take_permit(&mut self)
        requires
            old(self)@.seeking + old(self)@.held < capacity(old(self)@.config),
        ensures
            final(self)@ == old(self)@.permitted(),
    {
        proof {
            use_type_invariant(&*self);
        }
        let waiting: i64 = gauge_down(self.metrics.waiting);
        self.metrics = PoolMetrics { waiting, ..self.metrics };
        self.seeking = self.seeking + 1;
    }

    /// Look for a connection: idle ones first, the most recently parked one
    /// before the others. Connections past `max_lifetime` are closed on the
    /// way; the second result holds them.
    pub fn next_candidate(&mut self, now: Nanos) -> (r: (Candidate<C>, Vec<C>))
        requires
            old(self)@.seeking > 0,
        ensures
            ({
                let before = old(self)@;
                let n = before.expired_on_top(now);
                let left = before.usable(now);
                &&& n <= before.idle.len()
                &&& r.1.len() == n
                &&& forall|i: int|
                    0 <= i < n ==> #[trigger] r.1@[i] == before.idle[before.idle.len() - 1 - i].conn
                &&& final(self)@ == before.sought(now)
                &&& r.0 == (if left.len() == 0 {
                    Candidate::Connect
                } else if before.stale(left.last(), now) {
                    Candidate::Probe { conn: left.last().conn, created_at: left.last().created_at }
                } else {
                    Candidate::Ready { conn: left.last().conn, created_at: left.last().created_at }
                })
            }),
    {
        proof {
            use_type_invariant(&*self);
        }
        let ghost before = self@;
        let ghost n = before.expired_on_top(now);
        let mut idle: Vec<Parked<C>> = Vec::new();
        std::mem::swap(&mut idle, &mut self.idle);
        let mut closed: Vec<C> = Vec::new();
        let mut evicted: u64 = self.metrics.evicted;
        let max_lifetime: Nanos = self.config.max_lifetime;
        let stale_after: Nanos = self.config.stale_after;
        let mut found: Option<Parked<C>> = None;
        assert(before.idle.take(before.idle.len() as int) =~= before.idle);
        while idle.len() > 0 && found.is_none()
            invariant
                before.config.max_lifetime == max_lifetime,
                n == before.expired_on_top(now),
                found is None ==> {
                    &&& idle@.len() + closed@.len() == before.idle.len()
                    &&& idle@ == before.idle.take(idle@.len() as int)
                    &&& n == closed@.len() + (PoolView { idle: idle@, ..before }).expired_on_top(
                        now,
                    )
                },
                found matches Some(p) ==> {
                    &&& n == closed@.len()
                    &&& idle@.len() + 1 + n == before.idle.len()
                    &&& idle@ == before.idle.take(idle@.len() as int)
                    &&& p == before.idle[idle@.len() as int]
                },
                forall|i: int|
                    0 <= i < closed@.len() ==> #[trigger] closed@[i] == before.idle[before.idle.len()
                        - 1 - i].conn,
                evicted == counted(before.metrics.evicted, closed@.len() as int),
            decreases idle.len(),
        {
            let ghost stack = idle@;
            match idle.pop() {
                Some(parked) => {
                    assert(idle@ =~= stack.drop_last());
                    assert(idle@ =~= before.idle.take(idle@.len() as int));
                    assert(parked == before.idle[idle@.len() as int]);
                    if time::elapsed(parked.created_at, now) > max_lifetime {
                        evicted = count(evicted);
                        closed.push(parked.conn);
                    } else {
                        found = Some(parked);
                    }
                },
                None => {},
            }
        }
        self.seeking = self.seeking - 1;
        self.held = self.held + 1;
        match found {
            Some(parked) => {
                let ghost left = before.idle.take(before.idle.len() - n);
                assert(left.last() == parked);
                assert(idle@ =~= left.drop_last());
                self.idle = idle;
                if time::elapsed(parked.idle_since, now) > stale_after {
                    let probed: u64 = count(self.metrics.probed);
                    self.metrics = PoolMetrics { evicted, probed, ..self.metrics };
                    (Candidate::Probe { conn: parked.conn, created_at: parked.created_at }, closed)
                } else {
                    self.metrics = PoolMetrics { evicted, ..self.metrics };
                    (Candidate::Ready { conn: parked.conn, created_at: parked.created_at }, closed)
                }
            },
            None => {
                assert(idle@ =~= before.idle.take(before.idle.len() - n));
                self.idle = idle;
                self.metrics = PoolMetrics { evicted, ..self.metrics };
                (Candidate::Connect, closed)
            },
        }
    }

    /// The probed connection is dead; the checkout goes on seeking.
    pub fn probe_failed(&mut self)
        requires
            old(self)@.held > 0,
        ensures
            final(self)@ == old(self)@.probed_dead(),
    {
        proof {
            use_type_invariant(&*self);
        }
        self.held = self.held - 1;
        self.seeking = self.seeking + 1;
        let dropped: u64 = count(self.metrics.dropped);
        self.metrics = PoolMetrics { dropped, ..self.metrics };
    }

    /// A new connection could not be opened; the checkout fails and its
    /// permit is free again.
    pub fn connect_failed(&mut self)
        requires
            old(self)@.held > 0,
        ensures
            final(self)@ == old(self)@.not_opened(),
    {
        proof {
            use_type_invariant(&*self);
        }
        self.held = self.held - 1;
        let dropped: u64 = count(self.metrics.dropped);
        self.metrics = PoolMetrics { dropped, ..self.metrics };
    }

    /// A checkout gives up while it waits for a permit.
    pub fn stop_waiting(&mut self)
        ensures
            final(self)@ == old(self)@.one_less_waiting(),
    {
        proof {
            use_type_invariant(&*self);
        }
        let waiting: i64 = gauge_down(self.metrics.waiting);
        self.metrics = PoolMetrics { waiting, ..self.metrics };
    }

    /// A checkout gives up while its connection is probed or opened; its
    /// permit is free again, and the connection counts nowhere.
    pub fn abandon(&mut self)
        requires
            old(self)@.held > 0,
        ensures
            final(self)@ == old(self)@.abandoned(),
    {
        proof {
            use_type_invariant(&*self);
        }
        self.held = self.held - 1;
    }

    /// A checkout has its connection; `created` says that it was opened for
    /// it.
    pub fn finish_checkout(&mut self, conn: C, created_at: Nanos, created: bool) -> (lease:
        UpstreamLease<C>)
        ensures
            lease == (UpstreamLease { conn, created_at }),
            final(self)@ == old(self)@.checked_out(created),
    {
        proof {
            use_type_invariant(&*self);
        }
        let made: u64 = if created {
            count(self.metrics.created)
        } else {
            self.metrics.created
        };
        let checkouts: u64 = count(self.metrics.checkouts);
        let reused: u64 = count(self.metrics.reused);
        let active: i64 = gauge_up(self.metrics.active);
        self.metrics = PoolMetrics { created: made, checkouts, reused, active, ..self.metrics };
        UpstreamLease { conn, created_at }
    }

    /// A connection comes back. `clean` holds its parameters when it is in
    /// its neutral state; a connection that could not be brought there is
    /// dropped. One that is past `max_lifetime` is closed instead of parked.
    /// Returns the connection if it is to be closed.
    fn take_back(
        &mut self,
        conn: C,
        created_at: Nanos,
        clean: Option<TextMap<String>>,
        now: Nanos,
    ) -> (r: Option<C>)
        requires
            old(self)@.held > 0,
        ensures
            final(self)@ == old(self)@.returned(
                opt_parameters(clean),
                (Parked { conn, idle_since: now, created_at }),
                now,
            ),
            r == (if clean is Some && !old(self)@.expired(
                (Parked { conn, idle_since: now, created_at }),
                now,
            ) {
                None
            } else {
                Some(conn)
            }),
    {
        proof {
            use_type_invariant(&*self);
        }
        let ghost before = self@;
        let active: i64 = gauge_down(self.metrics.active);
        self.metrics = PoolMetrics { active, ..self.metrics };
        self.held = self.held - 1;
        match clean {
            None => {
                let dropped: u64 = count(self.metrics.dropped);
                self.metrics = PoolMetrics { dropped, ..self.metrics };
                Some(conn)
            },
            Some(parameters) => {
                self.baseline = Some(parameters);
                if time::elapsed(created_at, now) > self.config.max_lifetime {
                    let evicted: u64 = count(self.metrics.evicted);
                    self.metrics = PoolMetrics { evicted, ..self.metrics };
                    Some(conn)
                } else {
                    let mut idle: Vec<Parked<C>> = Vec::new();
                    std::mem::swap(&mut idle, &mut self.idle);
                    idle.push(Parked { conn, idle_since: now, created_at });
                    self.idle = idle;
                    let checked_in: u64 = count(self.metrics.checked_in);
                    self.metrics = PoolMetrics { checked_in, ..self.metrics };
                    None
                }
            },
        }
    }

    /// A checked-out connection is closed instead of coming back.
    fn give_up(&mut self)
        requires
            old(self)@.held > 0,
        ensures
            final(self)@ == old(self)@.given_up(),
    {
        proof {
            use_type_invariant(&*self);
        }
        self.held = self.held - 1;
        let dropped: u64 = count(self.metrics.dropped);
        let active: i64 = gauge_down(self.metrics.active);
        self.metrics = PoolMetrics { dropped, active, ..self.metrics };
    }

    /// Take out the idle connections that are past `idle_timeout` or
    /// `max_lifetime`; the result holds them. The others keep their order.
    pub fn sweep(&mut self, now: Nanos) -> (closed: Vec<C>)
        ensures
            ({
                let before = old(self)@;
                &&& final(self)@ == before.swept(now)
                &&& closed@ == before.swept_out(now).map_values(|p: Parked<C>| p.conn)
            }),
    {
        proof {
            use_type_invariant(&*self);
        }
        let ghost before = self@;
        let ghost keeps = |p: Parked<C>| before.keeps(p, now);
        let ghost gone = |p: Parked<C>| !before.keeps(p, now);
        let ghost conns = |p: Parked<C>| p.conn;
        let mut idle: Vec<Parked<C>> = Vec::new();
        std::mem::swap(&mut idle, &mut self.idle);
        // the idle stack, turned over so that it can be taken from its bottom
        let mut turned: Vec<Parked<C>> = Vec::new();
        while idle.len() > 0
            invariant
                idle@.len() + turned@.len() == before.idle.len(),
                idle@ == before.idle.take(idle@.len() as int),
                forall|i: int|
                    0 <= i < turned@.len() ==> #[trigger] turned@[i]
                        == before.idle[before.idle.len() - 1 - i],
            decreases idle.len(),
        {
            match idle.pop() {
                Some(p) => {
                    turned.push(p);
                },
                None => {},
            }
        }
        let mut left: Vec<Parked<C>> = Vec::new();
        let mut closed: Vec<C> = Vec::new();
        let mut evicted: u64 = self.metrics.evicted;
        let idle_timeout: Nanos = self.config.idle_timeout;
        let max_lifetime: Nanos = self.config.max_lifetime;
        let ghost mut done: int = 0;
        assert(before.idle.take(0).filter(keeps) =~= seq![]);
        assert(before.idle.take(0).filter(gone).map_values(conns) =~= seq![]);
        while turned.len() > 0
            invariant
                done + turned@.len() == before.idle.len(),
                0 <= done,
                before.config.idle_timeout == idle_timeout,
                before.config.max_lifetime == max_lifetime,
                keeps == (|p: Parked<C>| before.keeps(p, now)),
                gone == (|p: Parked<C>| !before.keeps(p, now)),
                conns == (|p: Parked<C>| p.conn),
                forall|i: int|
                    0 <= i < turned@.len() ==> #[trigger] turned@[i]
                        == before.idle[before.idle.len() - 1 - i],
                left@ == before.idle.take(done).filter(keeps),
                closed@ == before.idle.take(done).filter(gone).map_values(conns),
                left@.len() + closed@.len() == done,
                evicted == counted(before.metrics.evicted, closed@.len() as int),
            decreases turned.len(),
        {
            match turned.pop() {
                Some(p) => {
                    proof {
                        let next = before.idle.take(done + 1);
                        assert(next.last() == p);
                        assert(next.drop_last() =~= before.idle.take(done));
                        reveal(Seq::filter);
                    }
                    let idle_too_long = time::elapsed(p.idle_since, now) > idle_timeout;
                    let too_old = time::elapsed(p.created_at, now) > max_lifetime;
                    if idle_too_long || too_old {
                        evicted = count(evicted);
                        closed.push(p.conn);
                        proof {
                            let next = before.idle.take(done + 1);
                            assert(next.filter(gone) =~= before.idle.take(done).filter(gone).push(
                                p,
                            ));
                            assert(closed@ =~= next.filter(gone).map_values(conns));
                        }
                    } else {
                        left.push(p);
                    }
                    proof {
                        done = done + 1;
                    }
                },
                None => {},
            }
        }
        assert(before.idle.take(done) =~= before.idle);
        self.idle = left;
        self.metrics = PoolMetrics { evicted, ..self.metrics };
        closed
    }
}

// ---------------------------------------------------------------------------
// laws of the pool
// ---------------------------------------------------------------------------

/// A counter goes up by what is counted, and starts over behind its range; a
/// gauge goes up and down by one, and back again to where it was.
pub proof fn law_counters(counter: u64, n: nat, gauge: i64)
    requires
        n < 0x1_0000_0000_0000_0000,
    ensures
        counter + n <= u64::MAX ==> counted(counter, n as int) == counter + n,
        counter + n > u64::MAX ==> counted(counter, n as int) == counter + n - u64::MAX - 1,
        gauge > i64::MIN ==> wrapped_down(gauge) == gauge - 1,
        gauge < i64::MAX ==> wrapped_up(gauge) == gauge + 1,
        wrapped_up(wrapped_down(gauge)) == gauge,
        wrapped_down(wrapped_up(gauge)) == gauge,
{
}

/// A connection is too old when more than `max_lifetime` has passed since it
/// was opened, and has to be probed when it has been idle for more than
/// `stale_after`; on a clock that went back nothing has passed.
pub proof fn law_ages<C>(s: PoolView<C>, p: Parked<C>, now: Nanos)
    ensures
        s.expired(p, now) <==> now - p.created_at > s.config.max_lifetime,
        s.stale(p, now) <==> now - p.idle_since > s.config.stale_after,
        s.keeps(p, now) <==> now - p.idle_since <= s.config.idle_timeout && now - p.created_at
            <= s.config.max_lifetime,
{
}

/// A pool never has room for less than one connection, and otherwise for as
/// many as configured.
pub proof fn law_capacity(config: PoolConfig)
    ensures
        capacity(config) >= 1,
        config.max_size >= 1 ==> capacity(config) == config.max_size,
        capacity(config) <= config.max_size + 1,
{
}

proof fn lemma_expired_on_top<C>(s: PoolView<C>, now: Nanos)
    ensures
        s.expired_on_top(now) <= s.idle.len(),
        forall|i: int|
            s.idle.len() - s.expired_on_top(now) <= i < s.idle.len() ==> s.expired(
                #[trigger] s.idle[i],
                now,
            ),
        s.expired_on_top(now) < s.idle.len() ==> !s.expired(
            s.idle[s.idle.len() - 1 - s.expired_on_top(now)],
            now,
        ),
    decreases s.idle.len(),
{
    if s.idle.len() > 0 && s.expired(s.idle.last(), now) {
        let t = PoolView { idle: s.idle.drop_last(), ..s };
        lemma_expired_on_top(t, now);
        assert forall|i: int| s.idle.len() - s.expired_on_top(now) <= i < s.idle.len() implies s.expired(
            #[trigger] s.idle[i],
            now,
        ) by {
            if i < t.idle.len() {
                assert(t.expired(t.idle[i], now));
            }
        }
    }
}

/// A checkout takes the most recently parked connection that is not too old.
/// All that were parked after it are too old and leave the pool; all below it
/// stay. A new connection is opened exactly when every idle one is too old.
pub proof fn law_most_recent_usable<C>(s: PoolView<C>, now: Nanos, k: int)
    requires
        0 <= k < s.idle.len(),
        !s.expired(s.idle[k], now),
        forall|i: int| k < i < s.idle.len() ==> s.expired(#[trigger] s.idle[i], now),
    ensures
        s.usable(now).len() == k + 1,
        s.usable(now).last() == s.idle[k],
        s.sought(now).idle == s.idle.take(k),
        s.expired_on_top(now) == s.idle.len() - 1 - k,
        s.sought(now).metrics.evicted == counted(
            s.metrics.evicted,
            s.idle.len() - 1 - k,
        ),
        s.sought(now).metrics.probed == (if s.stale(s.idle[k], now) {
            counted(s.metrics.probed, 1)
        } else {
            s.metrics.probed
        }),
{
    lemma_expired_on_top(s, now);
    let n: int = s.expired_on_top(now) as int;
    if n < s.idle.len() - 1 - k {
        assert(s.expired(s.idle[s.idle.len() - 1 - n], now));
    } else if n > s.idle.len() - 1 - k {
        assert(s.expired(s.idle[k], now));
    }
    assert(s.sought(now).idle =~= s.idle.take(k));
}

/// With every idle connection too old, all of them leave the pool and a new one
/// has to be opened.
pub proof fn law_none_usable<C>(s: PoolView<C>, now: Nanos)
    requires
        forall|i: int| 0 <= i < s.idle.len() ==> s.expired(#[trigger] s.idle[i], now),
    ensures
        s.usable(now).len() == 0,
        s.sought(now).idle.len() == 0,
        s.sought(now).metrics.evicted == counted(s.metrics.evicted, s.idle.len() as int),
        s.sought(now).metrics.probed == s.metrics.probed,
{
    lemma_expired_on_top(s, now);
    if s.expired_on_top(now) < s.idle.len() {
        let i: int = s.idle.len() - 1 - s.expired_on_top(now);
        assert(s.expired(s.idle[i], now));
    }
}

/// The permits that are out: one is taken to seek a connection and is kept
/// while the connection is held. It comes back exactly when the checkout fails
/// or gives up, and when the connection is returned or closed.
pub proof fn law_permits<C>(
    s: PoolView<C>,
    clean: Option<Map<Seq<char>, Seq<char>>>,
    parked: Parked<C>,
    created: bool,
    now: Nanos,
)
    requires
        s.seeking > 0,
        s.held > 0,
    ensures
        s.permitted().seeking == s.seeking + 1 && s.permitted().held == s.held,
        s.sought(now).seeking == s.seeking - 1 && s.sought(now).held == s.held + 1,
        s.probed_dead().seeking == s.seeking + 1 && s.probed_dead().held == s.held - 1,
        s.not_opened().seeking == s.seeking && s.not_opened().held == s.held - 1,
        s.abandoned().seeking == s.seeking && s.abandoned().held == s.held - 1,
        s.checked_out(created).seeking == s.seeking && s.checked_out(created).held == s.held,
        s.given_up().seeking == s.seeking && s.given_up().held == s.held - 1,
        s.returned(clean, parked, now).seeking == s.seeking,
        s.returned(clean, parked, now).held == s.held - 1,
        s.swept(now).seeking == s.seeking && s.swept(now).held == s.held,
        s.one_more_waiting().seeking == s.seeking && s.one_more_waiting().held == s.held,
        s.one_less_waiting().seeking == s.seeking && s.one_less_waiting().held == s.held,
{
}

/// Idle connections enter a pool only when they are returned, and leave it only
/// when a checkout looks for one or the pool is swept; the baseline is touched
/// by returns alone, and the key and the limits by nothing.
pub proof fn law_idle_untouched<C>(s: PoolView<C>, created: bool, now: Nanos)
    ensures
        ({
            let others = seq![
                s.one_more_waiting(),
                s.one_less_waiting(),
                s.permitted(),
                s.probed_dead(),
                s.not_opened(),
                s.abandoned(),
                s.checked_out(created),
                s.given_up(),
            ];
            forall|i: int|
                0 <= i < others.len() ==> (#[trigger] others[i]).idle == s.idle && others[i].baseline
                    == s.baseline && others[i].key == s.key && others[i].config == s.config
        }),
        s.sought(now).baseline == s.baseline && s.sought(now).key == s.key,
        s.sought(now).config == s.config,
        s.swept(now).baseline == s.baseline && s.swept(now).key == s.key,
        s.swept(now).config == s.config,
{
}

/// A connection comes back. Only a clean one that is not too old is parked, on
/// top of the others, to be found first; its parameters become the baseline.
/// One that is too old only refreshes the baseline, and one that is not clean
/// leaves nothing behind.
pub proof fn law_returned<C>(
    s: PoolView<C>,
    parameters: Map<Seq<char>, Seq<char>>,
    parked: Parked<C>,
    now: Nanos,
)
    ensures
        ({
            let t = s.returned(Some(parameters), parked, now);
            &&& t.baseline == Some(parameters)
            &&& t.idle == (if now - parked.created_at > s.config.max_lifetime {
                s.idle
            } else {
                s.idle + seq![parked]
            })
            &&& t.key == s.key && t.config == s.config
        }),
        ({
            let t = s.returned(None, parked, now);
            &&& t.baseline == s.baseline
            &&& t.idle == s.idle
            &&& t.key == s.key && t.config == s.config
        }),
{
    assert(s.idle.push(parked) =~= s.idle + seq![parked]);
}

/// The counters tell what happened. Every connection that was checked out is
/// counted once when it leaves its session: as checked in, as evicted for its
/// age, or as dropped.
pub proof fn law_counted_once<C>(
    s: PoolView<C>,
    clean: Option<Map<Seq<char>, Seq<char>>>,
    parked: Parked<C>,
    now: Nanos,
)
    ensures
        ({
            let was = s.metrics;
            let is_now = s.returned(clean, parked, now).metrics;
            let fit = now - parked.created_at <= s.config.max_lifetime;
            &&& is_now.active == wrapped_down(was.active)
            &&& is_now.checked_in == counted(was.checked_in, if clean is Some && fit { 1int } else { 0int })
            &&& is_now.evicted == counted(was.evicted, if clean is Some && !fit { 1int } else { 0int })
            &&& is_now.dropped == counted(was.dropped, if clean is None { 1int } else { 0int })
            &&& is_now.checkouts == was.checkouts && is_now.reused == was.reused
            &&& is_now.created == was.created && is_now.probed == was.probed
            &&& is_now.waiting == was.waiting
        }),
        ({
            let is_now = s.given_up().metrics;
            &&& is_now.active == wrapped_down(s.metrics.active)
            &&& is_now.dropped == counted(s.metrics.dropped, 1)
            &&& is_now == (PoolMetrics { active: is_now.active, dropped: is_now.dropped, ..s.metrics })
        }),
{
}

/// The counters of a checkout: it counts once as one, as created only when a
/// connection was opened for it, and as active until the connection leaves the
/// session; a dead probe and a failed attempt count as dropped; one that gives
/// up counts nowhere; and who waits is counted while waiting.
pub proof fn law_checkout_counted<C>(s: PoolView<C>, now: Nanos)
    ensures
        ({
            let is_now = s.checked_out(true).metrics;
            &&& is_now.created == counted(s.metrics.created, 1)
            &&& is_now.checkouts == counted(s.metrics.checkouts, 1)
            &&& is_now.reused == counted(s.metrics.reused, 1)
            &&& is_now.active == wrapped_up(s.metrics.active)
            &&& s.checked_out(false).metrics == (PoolMetrics { created: s.metrics.created, ..is_now })
            &&& is_now.dropped == s.metrics.dropped && is_now.evicted == s.metrics.evicted
            &&& is_now.checked_in == s.metrics.checked_in && is_now.probed == s.metrics.probed
            &&& is_now.waiting == s.metrics.waiting
        }),
        s.probed_dead().metrics == s.not_opened().metrics,
        s.not_opened().metrics == (PoolMetrics {
            dropped: counted(s.metrics.dropped, 1),
            ..s.metrics
        }),
        s.abandoned().metrics == s.metrics,
        s.permitted().metrics == s.one_less_waiting().metrics,
        s.one_more_waiting().one_less_waiting() == s,
        s.one_more_waiting().metrics.waiting == wrapped_up(s.metrics.waiting),
        s.one_more_waiting().metrics == (PoolMetrics {
            waiting: s.one_more_waiting().metrics.waiting,
            ..s.metrics
        }),
        s.sought(now).metrics == (PoolMetrics {
            evicted: s.sought(now).metrics.evicted,
            probed: s.sought(now).metrics.probed,
            ..s.metrics
        }),
        s.swept(now).metrics == (PoolMetrics { evicted: s.swept(now).metrics.evicted, ..s.metrics }),
{
}

/// A sweep takes out exactly the connections that were idle for longer than
/// `idle_timeout` or are past `max_lifetime`, and counts them; the others stay
/// in their order.
pub proof fn law_sweep<C>(s: PoolView<C>, now: Nanos, p: Parked<C>)
    ensures
        s.swept(now).idle == s.idle.filter(
            |q: Parked<C>|
                now - q.idle_since <= s.config.idle_timeout && now - q.created_at
                    <= s.config.max_lifetime,
        ),
        s.swept(now).idle.contains(p) ==> s.idle.contains(p),
        s.idle.contains(p) ==> (s.swept(now).idle.contains(p) <==> now - p.idle_since
            <= s.config.idle_timeout && now - p.created_at <= s.config.max_lifetime),
        s.swept_out(now).len() + s.swept(now).idle.len() == s.idle.len(),
        s.idle.contains(p) ==> (s.swept(now).idle.contains(p) <==> !s.swept_out(now).contains(p)),
        s.swept(now).metrics.evicted == counted(
            s.metrics.evicted,
            s.idle.len() - s.swept(now).idle.len(),
        ),
{
    let keeps = |q: Parked<C>| s.keeps(q, now);
    let stays = |q: Parked<C>|
        now - q.idle_since <= s.config.idle_timeout && now - q.created_at <= s.config.max_lifetime;
    let gone = |q: Parked<C>| !s.keeps(q, now);
    assert(keeps =~= stays);
    lemma_parted(s.idle, keeps, gone);
    if s.idle.contains(p) {
        let i = choose|i: int| 0 <= i < s.idle.len() && s.idle[i] == p;
        if keeps(p) {
            s.idle.lemma_filter_contains(keeps, i);
        } else {
            s.idle.lemma_filter_contains(gone, i);
        }
        if s.swept(now).idle.contains(p) {
            let j = choose|j: int| 0 <= j < s.swept(now).idle.len() && s.swept(now).idle[j] == p;
            s.idle.lemma_filter_pred(keeps, j);
        }
        if s.swept_out(now).contains(p) {
            let j = choose|j: int| 0 <= j < s.swept_out(now).len() && s.swept_out(now)[j] == p;
            s.idle.lemma_filter_pred(gone, j);
        }
    }
    if s.swept(now).idle.contains(p) {
        s.idle.lemma_filter_contains_rev(keeps, p);
    }
}

proof fn lemma_parted<C>(
    items: Seq<Parked<C>>,
    keeps: spec_fn(Parked<C>) -> bool,
    gone: spec_fn(Parked<C>) -> bool,
)
    requires
        forall|p: Parked<C>| #[trigger] gone(p) <==> !keeps(p),
    ensures
        items.filter(keeps).len() + items.filter(gone).len() == items.len(),
    decreases items.len(),
{
    reveal(Seq::filter);
    if items.len() > 0 {
        lemma_parted(items.drop_last(), keeps, gone);
        assert(gone(items.last()) <==> !keeps(items.last()));
    }
}

/// A startup parameter is put on a connection exactly when the client asked for
/// one that the connection does not have, and only these two ever are.
pub proof fn law_startup_synced(
    startup: Map<Seq<char>, String>,
    current: Map<Seq<char>, String>,
)
    ensures
        TRACKED_STARTUP_PARAMETERS[0]@ == "application_name"@,
        TRACKED_STARTUP_PARAMETERS[1]@ == "client_encoding"@,
        forall|i: int|
            #![trigger startup_differs(startup, current, i)]
            0 <= i < 2 ==> {
                let name = TRACKED_STARTUP_PARAMETERS[i]@;
                &&& !startup.contains_key(name) ==> !startup_differs(startup, current, i)
                &&& startup.contains_key(name) && current.contains_key(name) ==> (startup_differs(
                    startup,
                    current,
                    i,
                ) <==> current[name]@ != startup[name]@)
                &&& startup.contains_key(name) && !current.contains_key(name) ==> (startup_differs(
                    startup,
                    current,
                    i,
                ) <==> startup[name]@.len() > 0)
            },
{
    assert forall|i: int|
        #![trigger startup_differs(startup, current, i)]
        0 <= i < 2 && startup.contains_key(TRACKED_STARTUP_PARAMETERS[i]@)
            && !current.contains_key(TRACKED_STARTUP_PARAMETERS[i]@) implies (startup_differs(
        startup,
        current,
        i,
    ) <==> startup[TRACKED_STARTUP_PARAMETERS[i]@]@.len() > 0) by {
        if startup[TRACKED_STARTUP_PARAMETERS[i]@]@.len() == 0 {
            assert(startup[TRACKED_STARTUP_PARAMETERS[i]@]@ =~= Seq::empty());
        }
    }
}

/// The statement that sets a parameter: its name as it is, and the value as a
/// literal that reads back as the value, whatever it holds.
pub proof fn law_set_sql(name: Seq<char>, value: Seq<char>)
    ensures
        ({
            let sql = set_sql(name, value);
            let head = "SET "@ + name + " = '"@;
            &&& head.len() <= sql.len()
            &&& sql.take(head.len() as int) == head
            &&& literal_value(sql.skip(head.len() as int)) == Some(value)
            &&& sql.last() == '\''
        }),
{
    let sql = set_sql(name, value);
    let head = "SET "@ + name + " = '"@;
    let tail = text::replace_char(value, '\'', "''"@) + "'"@;
    law_set_literal(value);
    reveal_strlit("'");
    assert(sql =~= head + tail);
    assert(sql.take(head.len() as int) =~= head);
    assert(sql.skip(head.len() as int) =~= tail);
}

/// Draining a connection goes on through every message, errors too, until
/// `ReadyForQuery` tells its state or it is lost; a changed parameter is noted
/// on the way.
pub proof fn law_drain(event: wire::UpstreamEventView, r: DrainStep)
    requires
        drains(event, r),
    ensures
        r is Failed <==> !(event is Message),
        r matches DrainStep::Ready(status) ==> event == wire::UpstreamEventView::Message(
            wire::BackendView::ReadyForQuery { status },
        ),
        event matches wire::UpstreamEventView::Message(m) ==> {
            &&& m is ReadyForQuery <==> r is Ready
            &&& m is ParameterStatus <==> r is SetParameter
        },
        r matches DrainStep::SetParameter { name, value } ==> event
            == wire::UpstreamEventView::Message(
            wire::BackendView::ParameterStatus { name: name@, value: value@ },
        ),
{
}

/// Startup parameters are put on a connection one after the other, none left
/// out: the next is the first, from the given position on, that the connection
/// does not have yet, and its statement sets just that one to what the client
/// asked for.
pub proof fn law_next_startup_parameter(
    startup: Map<Seq<char>, String>,
    current: Map<Seq<char>, String>,
    from: usize,
    r: Option<ParameterToSet>,
    k: int,
)
    requires
        to_set_next(startup, current, from, r),
        from <= k < 2,
    ensures
        startup_differs(startup, current, k) && (forall|j: int|
            from <= j < k ==> !#[trigger] startup_differs(startup, current, j)) ==> {
            let name = TRACKED_STARTUP_PARAMETERS[k]@;
            &&& r matches Some(p)
            &&& p.index == k
            &&& p.name@ == name
            &&& p.value@ == startup[name]@
            &&& p.sql@ == set_sql(name, startup[name]@)
        },
        r is None ==> !startup_differs(startup, current, k),
{
}

} // verus!
