//! Sharding: scatter-gather.
//!
//! A query hook answers with [`Action::Scatter`] and a [`ScatterRequest`] of
//! per-shard legs; the legs run on their endpoints and the results compose
//! one query cycle for the client: the first leg's `RowDescription`, the
//! merged rows, a single `CommandComplete`.
//!
//! [`ShardSet`] broadcasts a query to all shards, or hashes a key to the
//! shard that owns it.
//!
//! Scatter requires the simple protocol and an idle transaction state. Each
//! leg runs one simple query.

use std::collections::hash_map::DefaultHasher;
use std::hash::Hasher;

use vstd::prelude::*;
use vstd::std_specs::hash::*;
use vstd::utf8::*;

use crate::config;
use crate::config::RouteConfig;
use crate::intercept;
use crate::intercept::Action;
use crate::text;
use crate::wire;
use crate::wire::{BackendMessage, DataRow, ErrorInfo, TransactionStatus, UpstreamEvent};

verus! {

/// How the legs' result sets compose into one.
#[derive(Debug, Clone, Copy, PartialEq, Eq, Structural)]
pub enum MergePolicy {
    /// One result set: the first leg's `RowDescription`, then every leg's
    /// rows (leg order). The command tag counts the total rows.
    Concat,
    /// Aggregation merge for `count(*)`/`sum()`-style queries: every leg
    /// must return rows with a single numeric first column; the result is
    /// one row with the summed value.
    Sum,
}

/// One scatter leg: run `sql` on `endpoint`'s pool.
#[derive(Debug, Clone)]
pub struct ScatterLeg {
    pub endpoint: String,
    pub sql: String,
}

/// A scatter-gather request.
#[derive(Debug, Clone)]
pub struct ScatterRequest {
    pub legs: Vec<ScatterLeg>,
    pub merge: MergePolicy,
    /// Command tag for the merged `CommandComplete` (e.g. `"SELECT"`).
    pub tag: String,
}

/// The view of a leg.
#[verifier::ext_equal]
pub struct LegView {
    pub endpoint: Seq<char>,
    pub sql: Seq<char>,
}

impl View for ScatterLeg {
    type V = LegView;

    open spec fn view(&self) -> LegView {
        LegView { endpoint: self.endpoint@, sql: self.sql@ }
    }
}

/// The view of a request.
#[verifier::ext_equal]
pub struct RequestView {
    pub legs: Seq<LegView>,
    pub merge: MergePolicy,
    pub tag: Seq<char>,
}

impl View for ScatterRequest {
    type V = RequestView;

    open spec fn view(&self) -> RequestView {
        RequestView {
            legs: self.legs@.map_values(|l: ScatterLeg| l@),
            merge: self.merge,
            tag: self.tag@,
        }
    }
}

/// What a successful scatter hands to the client, before `ReadyForQuery`.
pub struct Merged {
    pub messages: Vec<BackendMessage>,
    pub rows: u64,
    /// The state of the session's own connection after its leg, when it ran
    /// one.
    pub session_status: Option<TransactionStatus>,
}

/// The view of a successful scatter.
#[verifier::ext_equal]
pub struct MergedView {
    pub messages: Seq<wire::BackendView>,
    pub rows: u64,
    pub session_status: Option<TransactionStatus>,
}

impl View for Merged {
    type V = MergedView;

    open spec fn view(&self) -> MergedView {
        MergedView {
            messages: wire::backend_views(self.messages@),
            rows: self.rows,
            session_status: self.session_status,
        }
    }
}

/// A scatter failure surfaced to the client.
pub struct ScatterFailure {
    pub error: ErrorInfo,
    /// The session's own connection broke during the scatter (and must be
    /// destroyed).
    pub session_lease_broken: bool,
    /// The state of the session's own connection after its leg, when it ran
    /// one to the end.
    pub session_status: Option<TransactionStatus>,
}

/// The view of a scatter failure.
#[verifier::ext_equal]
pub struct FailureView {
    pub error: Seq<(u8, Seq<char>)>,
    pub session_lease_broken: bool,
    pub session_status: Option<TransactionStatus>,
}

impl View for ScatterFailure {
    type V = FailureView;

    open spec fn view(&self) -> FailureView {
        FailureView {
            error: self.error@,
            session_lease_broken: self.session_lease_broken,
            session_status: self.session_status,
        }
    }
}


// ---------------------------------------------------------------------------
// shards
// ---------------------------------------------------------------------------

/// The shards of a route: endpoint ids.
#[derive(Debug, Clone)]
pub struct ShardSet {
    shards: Vec<String>,
}

/// What has been written to a hasher once a text has been hashed into it.
pub uninterp spec fn hashed_text(before: Seq<Seq<u8>>, key: Seq<char>) -> Seq<Seq<u8>>;

/// `Hash::hash` of a `str` into a `DefaultHasher`: what it writes to the
/// hasher depends on the text alone.
#[verifier::external_body]
fn hash_text(key: &str, hasher: &mut DefaultHasher)
    ensures
        final(hasher)@ == hashed_text(old(hasher)@, key@),
{
    std::hash::Hash::hash(key, hasher)
}

/// The hash of a key.
pub open spec fn key_hash(key: Seq<char>) -> u64 {
    DefaultHasher::spec_finish(hashed_text(Seq::empty(), key))
}

/// The position of the shard that a hash belongs to, among `n` shards.
pub open spec fn shard_index(hash: u64, n: nat) -> int {
    (hash as usize) as int % n as int
}

impl ShardSet {
    /// The ids of the shards.
    pub closed spec fn ids(&self) -> Seq<Seq<char>> {
        text::texts(self.shards@)
    }

    /// These shards.
    pub fn new(shards: Vec<String>) -> (s: Self)
        ensures
            s.ids() == text::texts(shards@),
    {
        ShardSet { shards }
    }

    /// The ids of the shards.
    pub fn shards(&self) -> (r: &[String])
        ensures
            text::texts(r@) == self.ids(),
    {
        self.shards.as_slice()
    }

    /// The shard that a hash belongs to.
    pub fn shard_at(&self, hash: u64) -> (r: &str)
        requires
            self.ids().len() > 0,
        ensures
            0 <= shard_index(hash, self.ids().len()) < self.ids().len(),
            r@ == self.ids()[shard_index(hash, self.ids().len())],
    {
        let i: usize = (hash as usize) % self.shards.len();
        self.shards[i].as_str()
    }

    /// The shard owning `key`, stable within a process run. Single-shard
    /// traffic stays passthrough: return this id from the routing hook.
    pub fn shard_for(&self, key: &str) -> (r: &str)
        requires
            self.ids().len() > 0,
        ensures
            0 <= shard_index(key_hash(key@), self.ids().len()) < self.ids().len(),
            r@ == self.ids()[shard_index(key_hash(key@), self.ids().len())],
    {
        let mut hasher = DefaultHasher::new();
        hash_text(key, &mut hasher);
        let hash: u64 = hasher.finish();
        self.shard_at(hash)
    }

    /// Broadcast `sql` to every shard.
    pub fn broadcast(&self, sql: &str, merge: MergePolicy, tag: &str) -> (r: Action)
        ensures
            r@ == intercept::ActionView::Scatter(
                (RequestView {
                    legs: self.ids().map_values(
                        |id: Seq<char>| (LegView { endpoint: id, sql: sql@ }),
                    ),
                    merge,
                    tag: tag@,
                }),
            ),
    {
        let mut legs: Vec<ScatterLeg> = Vec::new();
        let mut i: usize = 0;
        while i < self.shards.len()
            invariant
                i <= self.shards.len(),
                legs.len() == i,
                forall|j: int|
                    0 <= j < i ==> #[trigger] legs@[j]@ == (LegView {
                        endpoint: self.ids()[j],
                        sql: sql@,
                    }),
            decreases self.shards.len() - i,
        {
            legs.push(ScatterLeg { endpoint: self.shards[i].clone(), sql: sql.to_owned() });
            i += 1;
        }
        let request = ScatterRequest { legs, merge, tag: tag.to_owned() };
        assert(request@.legs =~= self.ids().map_values(
            |id: Seq<char>| (LegView { endpoint: id, sql: sql@ }),
        ));
        Action::Scatter(request)
    }
}

/// The shard that a key belongs to is one of the set's, whatever its hash.
pub proof fn law_shard_for(shards: Seq<Seq<char>>, key: Seq<char>)
    requires
        shards.len() > 0,
    ensures
        shards.contains(shards[shard_index(key_hash(key), shards.len())]),
{
    let i = shard_index(key_hash(key), shards.len());
    assert(0 <= i < shards.len());
}

// ---------------------------------------------------------------------------
// planning
// ---------------------------------------------------------------------------

/// The endpoints of a request's legs.
pub open spec fn leg_endpoints(request: RequestView) -> Seq<Seq<char>> {
    request.legs.map_values(|l: LegView| l.endpoint)
}

/// The error about an endpoint that the route does not have.
pub open spec fn unknown_endpoint_error(id: Seq<char>) -> Seq<(u8, Seq<char>)> {
    wire::error_view("ERROR"@, "0A000"@, "pgferry scatter: unknown endpoint "@ + text::quoted_text(id))
}

/// Whether the route has the endpoint of a leg.
pub open spec fn leg_known(route: RouteConfig, leg: LegView) -> bool {
    text::first_index(config::endpoint_ids(route.endpoints@), leg.endpoint) is Some
}

/// Whether this is what a request is told before its legs are run.
pub open spec fn validated(
    request: RequestView,
    route: RouteConfig,
    r: Result<(), ScatterFailure>,
) -> bool {
    &&& r is Ok <==> (forall|i: int|
        0 <= i < request.legs.len() ==> leg_known(route, #[trigger] request.legs[i]))
    &&& r matches Err(failure) ==> exists|k: int|
        {
            &&& 0 <= k < request.legs.len()
            &&& !leg_known(route, #[trigger] request.legs[k])
            &&& forall|i: int| 0 <= i < k ==> leg_known(route, #[trigger] request.legs[i])
            &&& failure@ == (FailureView {
                error: unknown_endpoint_error(request.legs[k].endpoint),
                session_lease_broken: false,
                session_status: None,
            })
        }
}

/// Whether every leg's endpoint is one of the route's; otherwise the failure
/// about the first that is not.
pub fn validate(request: &ScatterRequest, route: &RouteConfig) -> (r: Result<(), ScatterFailure>)
    ensures
        validated(request@, *route, r),
{
    let mut i: usize = 0;
    while i < request.legs.len()
        invariant
            i <= request.legs.len(),
            forall|j: int| 0 <= j < i ==> leg_known(*route, #[trigger] request@.legs[j]),
        decreases request.legs.len() - i,
    {
        let ghost leg = request@.legs[i as int];
        if config::endpoint_position(
            route.endpoints.as_slice(),
            request.legs[i].endpoint.as_str(),
        ).is_none() {
            let mut message = "pgferry scatter: unknown endpoint ".to_owned();
            message.append(text::quoted(request.legs[i].endpoint.as_str()).as_str());
            assert(!leg_known(*route, leg));
            return Err(
                ScatterFailure {
                    error: ErrorInfo::new("ERROR", "0A000", message.as_str()),
                    session_lease_broken: false,
                    session_status: None,
                },
            );
        }
        assert(leg_known(*route, leg));
        i += 1;
    }
    Ok(())
}

/// Whether this is the leg that runs on the session's own connection.
pub open spec fn is_session_leg(
    request: RequestView,
    endpoint: Option<Seq<char>>,
    attached: bool,
    r: Option<usize>,
) -> bool {
    match r {
        Some(i) => {
            &&& attached
            &&& endpoint matches Some(e)
            &&& text::first_index(leg_endpoints(request), e) == Some(i as int)
            &&& i < request.legs.len()
        },
        None => !attached || endpoint is None || text::first_index(
            leg_endpoints(request),
            endpoint->0,
        ) is None,
    }
}

/// The leg that runs on the session's own connection: the first one on the
/// attached endpoint. It avoids a second checkout from a pool that may be
/// exhausted by the session itself.
pub fn session_leg(request: &ScatterRequest, endpoint: Option<&str>, attached: bool) -> (r: Option<
    usize,
>)
    ensures
        is_session_leg(request@, text::opt_str(endpoint), attached, r),
{
    let wanted = match endpoint {
        Some(e) => e,
        None => {
            return None;
        },
    };
    if !attached {
        return None;
    }
    let ghost ids = leg_endpoints(request@);
    let mut i: usize = 0;
    while i < request.legs.len()
        invariant
            i <= request.legs.len(),
            ids == leg_endpoints(request@),
            attached,
            endpoint == Some(wanted),
            text::first_index(ids.take(i as int), wanted@) is None,
        decreases request.legs.len() - i,
    {
        assert(ids.take(i + 1).drop_last() == ids.take(i as int));
        assert(ids[i as int] == request.legs@[i as int].endpoint@);
        if text::same_text(request.legs[i].endpoint.as_str(), wanted) {
            proof {
                config::lemma_first_index_extends(ids, wanted@, i + 1);
            }
            return Some(i);
        }
        i += 1;
    }
    assert(ids.take(request.legs.len() as int) == ids);
    None
}

// ---------------------------------------------------------------------------
// running a leg
// ---------------------------------------------------------------------------

/// What a leg has brought so far.
#[verifier::ext_equal]
pub struct LegResultView {
    /// The leg's messages; `ReadyForQuery` is consumed, `ParameterStatus`
    /// applied, errors kept apart.
    pub messages: Seq<wire::BackendView>,
    /// The last query-level error.
    pub error: Option<Seq<(u8, Seq<char>)>>,
    /// A `ParameterStatus` was seen: the connection has to be reset before it
    /// is used again.
    pub dirty: bool,
}

/// The messages of one leg as they arrive.
pub struct LegResult {
    messages: Vec<BackendMessage>,
    error: Option<ErrorInfo>,
    dirty: bool,
}

/// The view of an optional error.
pub open spec fn opt_info(e: Option<ErrorInfo>) -> Option<Seq<(u8, Seq<char>)>> {
    match e {
        Some(e) => Some(e@),
        None => None,
    }
}

impl View for LegResult {
    type V = LegResultView;

    closed spec fn view(&self) -> LegResultView {
        LegResultView {
            messages: wire::backend_views(self.messages@),
            error: opt_info(self.error),
            dirty: self.dirty,
        }
    }
}

/// What to do after a message of a leg.
pub enum CollectStep {
    /// Wait for the next one.
    Continue,
    /// Note the connection's new parameter value, then wait for the next one.
    SetParameter { name: String, value: String },
    /// The leg's query is done; the connection is in this state.
    Done(TransactionStatus),
    /// The connection broke.
    Broken,
}

impl LegResultView {
    /// The result of a leg whose shard could not be reached.
    pub open spec fn not_reached(error: Seq<char>) -> LegResultView {
        LegResultView {
            messages: Seq::empty(),
            error: Some(
                wire::error_view("ERROR"@, "08006"@, "connect to shard failed: "@ + error),
            ),
            dirty: false,
        }
    }

    /// What the leg has brought after one more event.
    pub open spec fn after(self, event: wire::UpstreamEventView) -> LegResultView {
        match event {
            wire::UpstreamEventView::Message(m) => match m {
                wire::BackendView::ReadyForQuery { .. } => self,
                wire::BackendView::ParameterStatus { .. } => LegResultView { dirty: true, ..self },
                wire::BackendView::ErrorResponse { error } => LegResultView {
                    error: Some(wire::normalized_fields(error)),
                    ..self
                },
                _ => LegResultView { messages: self.messages.push(m), ..self },
            },
            _ => self,
        }
    }
}

/// Whether this is what an event of a leg means.
pub open spec fn leg_means(event: wire::UpstreamEventView, step: CollectStep) -> bool {
    match event {
        wire::UpstreamEventView::Message(wire::BackendView::ReadyForQuery { status }) => step
            == CollectStep::Done(status),
        wire::UpstreamEventView::Message(
            wire::BackendView::ParameterStatus { name, value },
        ) => step matches CollectStep::SetParameter { name: n, value: v } && n@ == name && v@
            == value,
        wire::UpstreamEventView::Message(_) => step == CollectStep::Continue,
        _ => step == CollectStep::Broken,
    }
}

impl LegResult {
    /// Nothing yet.
    pub fn new() -> (r: LegResult)
        ensures
            r@ == (LegResultView { messages: Seq::empty(), error: None, dirty: false }),
    {
        let r = LegResult { messages: Vec::new(), error: None, dirty: false };
        assert(r@.messages =~= Seq::<wire::BackendView>::empty());
        r
    }

    /// A connection to the shard could not be had.
    pub fn unreachable(error: &str) -> (r: LegResult)
        ensures
            r@ == LegResultView::not_reached(error@),
    {
        let mut message = "connect to shard failed: ".to_owned();
        message.append(error);
        let r = LegResult {
            messages: Vec::new(),
            error: Some(ErrorInfo::new("ERROR", "08006", message.as_str())),
            dirty: false,
        };
        assert(r@.messages =~= Seq::<wire::BackendView>::empty());
        r
    }

    /// Whether the connection has to be reset before it is used again.
    pub fn is_dirty(&self) -> (r: bool)
        ensures
            r == self@.dirty,
    {
        self.dirty
    }

    /// The next event of the leg.
    pub fn on_event(&mut self, event: UpstreamEvent) -> (step: CollectStep)
        ensures
            final(self)@ == old(self)@.after(event@),
            leg_means(event@, step),
            event@ matches wire::UpstreamEventView::Message(
                wire::BackendView::ErrorResponse { error },
            ) ==> {
                &&& wire::field_value(final(self)@.error->0, 0x43) == wire::field_value(error, 0x43)
                &&& wire::field_value(final(self)@.error->0, 0x4d) == wire::field_value(error, 0x4d)
            },
    {
        match event {
            UpstreamEvent::Message(m) => match m {
                BackendMessage::ReadyForQuery { status } => CollectStep::Done(status),
                BackendMessage::ParameterStatus { name, value } => {
                    self.dirty = true;
                    CollectStep::SetParameter { name, value }
                },
                BackendMessage::ErrorResponse { error } => {
                    self.error = Some(ErrorInfo::from_fields(error.fields));
                    CollectStep::Continue
                },
                other => {
                    let ghost before = self.messages@;
                    self.messages.push(other);
                    assert(wire::backend_views(self.messages@) =~= wire::backend_views(
                        before,
                    ).push(other@));
                    CollectStep::Continue
                },
            },
            UpstreamEvent::Closed => CollectStep::Broken,
            UpstreamEvent::Broken(_) => CollectStep::Broken,
        }
    }
}

// ---------------------------------------------------------------------------
// gathering
// ---------------------------------------------------------------------------

/// The error about a shard whose connection was lost.
pub open spec fn shard_failed(endpoint: Seq<char>) -> Seq<(u8, Seq<char>)> {
    wire::error_view("ERROR"@, "08006"@, "shard "@ + endpoint + " failed"@)
}

/// The error of a leg that did not succeed: its own, or one about its shard.
pub open spec fn leg_error(result: LegResultView, endpoint: Seq<char>) -> Seq<(u8, Seq<char>)> {
    match result.error {
        Some(error) => error,
        None => shard_failed(endpoint),
    }
}

fn error_of_leg(result: LegResult, endpoint: &str) -> (e: ErrorInfo)
    ensures
        e@ == leg_error(result@, endpoint@),
{
    match result.error {
        Some(error) => error,
        None => {
            let mut message = "shard ".to_owned();
            message.append(endpoint);
            message.append(" failed");
            ErrorInfo::new("ERROR", "08006", message.as_str())
        },
    }
}

/// The state of a gather.
#[verifier::ext_equal]
pub struct GatherView {
    /// The messages of the legs, in leg order; empty for a leg that has not
    /// come in.
    pub legs: Seq<Seq<wire::BackendView>>,
    pub merge: MergePolicy,
    pub tag: Seq<char>,
    pub session_status: Option<TransactionStatus>,
    /// The failure that ends the scatter.
    pub failure: Option<FailureView>,
}

/// The results of a scatter's legs as they come in.
pub struct Gather {
    legs: Vec<Vec<BackendMessage>>,
    merge: MergePolicy,
    tag: String,
    session_status: Option<TransactionStatus>,
    failure: Option<ScatterFailure>,
}

/// The view of the legs' messages.
pub open spec fn leg_messages(legs: Seq<Vec<BackendMessage>>) -> Seq<Seq<wire::BackendView>> {
    legs.map_values(|l: Vec<BackendMessage>| wire::backend_views(l@))
}

/// The view of an optional failure.
pub open spec fn opt_failure(f: Option<ScatterFailure>) -> Option<FailureView> {
    match f {
        Some(f) => Some(f@),
        None => None,
    }
}

impl View for Gather {
    type V = GatherView;

    closed spec fn view(&self) -> GatherView {
        GatherView {
            legs: leg_messages(self.legs@),
            merge: self.merge,
            tag: self.tag@,
            session_status: self.session_status,
            failure: opt_failure(self.failure),
        }
    }
}

/// What to do next about a scatter.
#[derive(Debug, Clone, Copy, PartialEq, Eq, Structural)]
pub enum GatherStep {
    /// Wait for the next of the running legs.
    Wait,
    /// Run this leg on the session's own connection.
    RunOwn { leg: usize },
    /// The scatter is over; the legs that are still running are aborted.
    Finish,
}

impl GatherView {
    /// What to do next, with this many legs still running on pooled
    /// connections: the first failure ends the scatter, and the leg on the
    /// session's own connection runs once all others have come in.
    pub open spec fn next(self, running: nat, own: Option<usize>) -> GatherStep {
        if self.failure is Some {
            GatherStep::Finish
        } else if running > 0 {
            GatherStep::Wait
        } else {
            match own {
                Some(leg) if self.session_status is None => GatherStep::RunOwn { leg },
                _ => GatherStep::Finish,
            }
        }
    }

    /// A leg on a pooled connection has come in.
    pub open spec fn pooled(
        self,
        leg: int,
        endpoint: Seq<char>,
        result: LegResultView,
        broken: bool,
    ) -> GatherView {
        if result.error is Some || broken {
            GatherView {
                failure: if self.failure is Some {
                    self.failure
                } else {
                    Some(
                        FailureView {
                            error: leg_error(result, endpoint),
                            session_lease_broken: false,
                            session_status: self.session_status,
                        },
                    )
                },
                ..self
            }
        } else {
            GatherView { legs: self.legs.update(leg, result.messages), ..self }
        }
    }

    /// The leg on the session's own connection has come in. `status` is the
    /// connection's state, unless the connection broke.
    pub open spec fn own(
        self,
        leg: int,
        endpoint: Seq<char>,
        result: LegResultView,
        status: Option<TransactionStatus>,
    ) -> GatherView {
        if result.error is Some || status is None {
            GatherView {
                session_status: status,
                failure: if self.failure is Some {
                    self.failure
                } else {
                    Some(
                        FailureView {
                            error: leg_error(result, endpoint),
                            session_lease_broken: status is None,
                            session_status: status,
                        },
                    )
                },
                ..self
            }
        } else {
            GatherView {
                session_status: status,
                legs: self.legs.update(leg, result.messages),
                ..self
            }
        }
    }

    /// The start of a request: no leg has come in.
    pub open spec fn started(request: RequestView) -> GatherView {
        GatherView {
            legs: Seq::new(request.legs.len(), |i: int| Seq::<wire::BackendView>::empty()),
            merge: request.merge,
            tag: request.tag,
            session_status: None,
            failure: None,
        }
    }

    /// Whether this is the outcome of the scatter.
    pub open spec fn finishes(self, r: Result<Merged, ScatterFailure>) -> bool {
        match self.failure {
            Some(failure) => r matches Err(f) && f@ == failure,
            None => match merged_messages(self.all_messages(), self.merge, self.tag) {
                Some((messages, rows)) => {
                    &&& r matches Ok(m)
                    &&& m@.messages == messages
                    &&& m@.rows == rows
                    &&& m@.session_status == self.session_status
                },
                None => r matches Err(f) && f@ == (FailureView {
                    error: not_numeric_error(),
                    session_lease_broken: false,
                    session_status: self.session_status,
                }),
            },
        }
    }

    /// The messages of all legs, in leg order.
    pub open spec fn all_messages(self) -> Seq<wire::BackendView> {
        self.legs.flatten()
    }
}

/// The first column of a row as an integer: the text of its first value,
/// trimmed.
pub open spec fn first_column(row: wire::RowView) -> Option<int> {
    let len = wire::i32_at(row.data);
    if len < 0 {
        None
    } else {
        let bytes = row.data.subrange(4, 4 + len);
        if valid_utf8(bytes) {
            text::parse_int(text::trim(decode_utf8(bytes)))
        } else {
            None
        }
    }
}

/// Whether a row's data holds its first value whole.
pub open spec fn framed(row: wire::RowView) -> bool {
    row.data.len() >= 4 && 4 + wire::i32_at(row.data) <= row.data.len()
}

/// The outcome of summing rows.
#[verifier::ext_equal]
pub enum SumView {
    /// The sum.
    Total(int),
    /// A row's first column is not an integer.
    NotNumeric,
    /// A row does not hold its first value whole, or the running total leaves
    /// the range of 128-bit integers.
    Unsound,
}

/// The sum of the first columns of the rows among the messages, from left to
/// right.
pub open spec fn sum_of(messages: Seq<wire::BackendView>) -> SumView
    decreases messages.len(),
{
    if messages.len() == 0 {
        SumView::Total(0)
    } else {
        match (sum_of(messages.drop_last()), messages.last()) {
            (SumView::Total(total), wire::BackendView::DataRow { row }) => if !framed(row) {
                SumView::Unsound
            } else {
                match first_column(row) {
                    None => SumView::NotNumeric,
                    Some(v) => if i128::MIN <= total + v <= i128::MAX {
                        SumView::Total(total + v)
                    } else {
                        SumView::Unsound
                    },
                }
            },
            (before, _) => before,
        }
    }
}

/// The first description of rows among the messages.
pub open spec fn first_description(messages: Seq<wire::BackendView>) -> Seq<wire::BackendView>
    decreases messages.len(),
{
    if messages.len() == 0 {
        Seq::empty()
    } else {
        let before = first_description(messages.drop_last());
        if before.len() == 0 && messages.last() is RowDescription {
            seq![messages.last()]
        } else {
            before
        }
    }
}

/// The messages of one result set: the first description of rows, and every
/// row, in order.
pub open spec fn one_result_set(messages: Seq<wire::BackendView>) -> Seq<wire::BackendView>
    decreases messages.len(),
{
    if messages.len() == 0 {
        Seq::empty()
    } else {
        let before = one_result_set(messages.drop_last());
        let m = messages.last();
        if m is DataRow || (m is RowDescription && first_description(messages.drop_last()).len()
            == 0) {
            before.push(m)
        } else {
            before
        }
    }
}

/// How many rows there are among the messages.
pub open spec fn rows_in(messages: Seq<wire::BackendView>) -> nat
    decreases messages.len(),
{
    if messages.len() == 0 {
        0
    } else {
        rows_in(messages.drop_last()) + if messages.last() is DataRow {
            1nat
        } else {
            0nat
        }
    }
}

/// A command tag with a row count.
pub open spec fn tag_with_count(tag: Seq<char>, rows: nat) -> wire::BackendView {
    wire::BackendView::CommandComplete { tag: tag + " "@ + text::decimal(rows) }
}

/// The row that holds a sum.
pub open spec fn sum_row(total: int) -> wire::BackendView {
    wire::BackendView::DataRow {
        row: wire::RowView {
            field_count: 1,
            data: intercept::encode_value(Some(encode_utf8(text::decimal_int(total)))),
        },
    }
}

/// The error about a row that cannot be summed.
pub open spec fn not_numeric_error() -> Seq<(u8, Seq<char>)> {
    wire::error_view(
        "ERROR"@,
        "0A000"@,
        "pgferry scatter: Sum merge requires a numeric first column"@,
    )
}

/// What the client is sent for these messages of the legs.
pub open spec fn merged_messages(
    messages: Seq<wire::BackendView>,
    merge: MergePolicy,
    tag: Seq<char>,
) -> Option<(Seq<wire::BackendView>, nat)> {
    match merge {
        MergePolicy::Concat => Some(
            (
                one_result_set(messages).push(tag_with_count(tag, rows_in(messages))),
                rows_in(messages),
            ),
        ),
        MergePolicy::Sum => match sum_of(messages) {
            SumView::Total(total) => Some(
                (
                    first_description(messages).push(sum_row(total)).push(
                        wire::BackendView::CommandComplete { tag: tag + " 1"@ },
                    ),
                    1,
                ),
            ),
            _ => None,
        },
    }
}

fn tag_message(tag: &str, rows: u64) -> (m: BackendMessage)
    ensures
        m@ == tag_with_count(tag@, rows as nat),
{
    let mut shown = tag.to_owned();
    shown.append(" ");
    text::push_decimal(&mut shown, rows as u128);
    BackendMessage::CommandComplete { tag: shown }
}

/// The running total after one more row; `None` in its place where the row
/// is not numeric.
enum SumStep {
    Total(i128),
    NotNumeric,
    Unsound,
}

fn add_row(total: i128, row: &DataRow) -> (r: SumStep)
    ensures
        match r {
            SumStep::Total(t) => framed(row@) && first_column(row@) == Some(t - total),
            SumStep::NotNumeric => framed(row@) && first_column(row@) is None,
            SumStep::Unsound => !framed(row@) || (first_column(row@) matches Some(v) && !(i128::MIN
                <= total + v <= i128::MAX)),
        },
{
    if row.data.len() < 4 {
        return SumStep::Unsound;
    }
    let len: i32 = wire::get_i32(&row.data, 0);
    assert(row.data@.skip(0) =~= row.data@);
    if len < 0 {
        return SumStep::NotNumeric;
    }
    let len: usize = len as usize;
    if row.data.len() - 4 < len {
        return SumStep::Unsound;
    }
    let bytes = vstd::slice::slice_subrange(row.data.as_slice(), 4, 4 + len);
    match text::utf8_text(bytes) {
        None => SumStep::NotNumeric,
        Some(s) => {
            let trimmed = text::trimmed(s);
            let chars = text::to_chars(trimmed.as_str());
            assert(chars@.subrange(0, chars@.len() as int) =~= chars@);
            match text::parse_i128(&chars, 0, chars.len()) {
                None => SumStep::NotNumeric,
                Some(v) => match total.checked_add(v) {
                    Some(t) => SumStep::Total(t),
                    None => SumStep::Unsound,
                },
            }
        },
    }
}

impl Gather {
    /// Wait for the legs of a request.
    pub fn new(request: &ScatterRequest) -> (g: Gather)
        ensures
            g@ == GatherView::started(request@),
    {
        let mut legs: Vec<Vec<BackendMessage>> = Vec::new();
        let mut i: usize = 0;
        while i < request.legs.len()
            invariant
                i <= request.legs.len(),
                legs.len() == i,
                forall|j: int| 0 <= j < i ==> (#[trigger] legs@[j])@.len() == 0,
            decreases request.legs.len() - i,
        {
            legs.push(Vec::new());
            i += 1;
        }
        let g = Gather {
            legs,
            merge: request.merge,
            tag: request.tag.clone(),
            session_status: None,
            failure: None,
        };
        assert forall|j: int| 0 <= j < g@.legs.len() implies #[trigger] g@.legs[j] =~= Seq::<
            wire::BackendView,
        >::empty() by {
            assert(legs@[j]@.len() == 0);
        }
        assert(g@.legs =~= Seq::new(
            request@.legs.len(),
            |i: int| Seq::<wire::BackendView>::empty(),
        ));
        g
    }

    /// What to do next, with this many legs still running on pooled
    /// connections; `own` is the leg for the session's own connection.
    pub fn next_step(&self, running: usize, own: Option<usize>) -> (step: GatherStep)
        ensures
            step == self@.next(running as nat, own),
    {
        if self.failure.is_some() {
            GatherStep::Finish
        } else if running > 0 {
            GatherStep::Wait
        } else {
            match own {
                Some(leg) => if self.session_status.is_none() {
                    GatherStep::RunOwn { leg }
                } else {
                    GatherStep::Finish
                },
                None => GatherStep::Finish,
            }
        }
    }

    fn put_leg(&mut self, leg: usize, messages: Vec<BackendMessage>)
        requires
            leg < old(self)@.legs.len(),
        ensures
            final(self)@ == (GatherView {
                legs: old(self)@.legs.update(leg as int, wire::backend_views(messages@)),
                ..old(self)@
            }),
    {
        let ghost before = self.legs@;
        self.legs.set(leg, messages);
        assert(leg_messages(self.legs@) =~= leg_messages(before).update(
            leg as int,
            wire::backend_views(messages@),
        ));
    }

    /// A leg on a pooled connection has come in. The first failure decides.
    /// Returns whether the connection goes back to its pool: that of a failed
    /// leg is closed.
    pub fn on_pooled(&mut self, leg: usize, endpoint: &str, result: LegResult, broken: bool) -> (r:
        bool)
        requires
            leg < old(self)@.legs.len(),
        ensures
            final(self)@ == old(self)@.pooled(leg as int, endpoint@, result@, broken),
            r == (result@.error is None && !broken),
    {
        if result.error.is_some() || broken {
            if self.failure.is_none() {
                self.failure = Some(
                    ScatterFailure {
                        error: error_of_leg(result, endpoint),
                        session_lease_broken: false,
                        session_status: self.session_status,
                    },
                );
            }
            false
        } else {
            self.put_leg(leg, result.messages);
            true
        }
    }

    /// The leg on the session's own connection has come in. `status` is the
    /// connection's state, unless the connection broke.
    pub fn on_own(
        &mut self,
        leg: usize,
        endpoint: &str,
        result: LegResult,
        status: Option<TransactionStatus>,
    )
        requires
            leg < old(self)@.legs.len(),
        ensures
            final(self)@ == old(self)@.own(leg as int, endpoint@, result@, status),
    {
        self.session_status = status;
        if result.error.is_some() || status.is_none() {
            if self.failure.is_none() {
                self.failure = Some(
                    ScatterFailure {
                        error: error_of_leg(result, endpoint),
                        session_lease_broken: status.is_none(),
                        session_status: status,
                    },
                );
            }
        } else {
            self.put_leg(leg, result.messages);
        }
    }

    /// All messages, in leg order.
    fn take_messages(legs: Vec<Vec<BackendMessage>>) -> (all: Vec<BackendMessage>)
        ensures
            wire::backend_views(all@) == leg_messages(legs@).flatten(),
    {
        let ghost views = leg_messages(legs@);
        // the legs, turned over so that the first one can be taken off
        let mut legs = legs;
        let ghost whole = legs@;
        let mut turned: Vec<Vec<BackendMessage>> = Vec::new();
        while legs.len() > 0
            invariant
                legs@.len() + turned@.len() == whole.len(),
                legs@ == whole.take(legs@.len() as int),
                forall|i: int|
                    0 <= i < turned@.len() ==> #[trigger] turned@[i] == whole[whole.len() - 1 - i],
            decreases legs.len(),
        {
            match legs.pop() {
                Some(l) => {
                    turned.push(l);
                },
                None => {},
            }
        }
        let mut all: Vec<BackendMessage> = Vec::new();
        let ghost mut done: int = 0;
        assert(views.take(0) =~= Seq::<Seq<wire::BackendView>>::empty());
        assert(wire::backend_views(all@) =~= Seq::<wire::BackendView>::empty());
        proof {
            views.take(0).lemma_flatten_and_flatten_alt_are_equivalent();
        }
        while turned.len() > 0
            invariant
                done + turned@.len() == whole.len(),
                0 <= done,
                views == leg_messages(whole),
                forall|i: int|
                    0 <= i < turned@.len() ==> #[trigger] turned@[i] == whole[whole.len() - 1 - i],
                wire::backend_views(all@) == views.take(done).flatten(),
            decreases turned.len(),
        {
            match turned.pop() {
                Some(l) => {
                    let mut l = l;
                    let ghost leg = l@;
                    let ghost before = all@;
                    assert(leg == whole[done]@);
                    all.append(&mut l);
                    proof {
                        let next = views.take(done + 1);
                        assert(wire::backend_views(all@) =~= wire::backend_views(before)
                            + wire::backend_views(leg));
                        assert(next.drop_last() =~= views.take(done));
                        assert(next.last() == wire::backend_views(leg));
                        next.lemma_flatten_and_flatten_alt_are_equivalent();
                        views.take(done).lemma_flatten_and_flatten_alt_are_equivalent();
                        assert(next.flatten_alt() == next.drop_last().flatten_alt() + next.last());
                        done = done + 1;
                    }
                },
                None => {},
            }
        }
        assert(views.take(done) =~= views);
        all
    }

    /// Whether the legs can be merged: unless the rows are summed, always;
    /// otherwise each row must hold its first value whole, and the running
    /// total must stay within 128 bits.
    pub fn can_finish(&self) -> (r: bool)
        ensures
            r == (self@.merge == MergePolicy::Sum && self@.failure is None ==> sum_of(
                self@.all_messages(),
            ) != SumView::Unsound),
    {
        if self.merge != MergePolicy::Sum || self.failure.is_some() {
            return true;
        }
        let ghost views = leg_messages(self.legs@);
        let mut total: i128 = 0;
        let mut stopped: bool = false;
        let mut k: usize = 0;
        assert(views.take(0) =~= Seq::<Seq<wire::BackendView>>::empty());
        proof {
            views.take(0).lemma_flatten_and_flatten_alt_are_equivalent();
        }
        while k < self.legs.len()
            invariant
                k <= self.legs.len(),
                views == leg_messages(self.legs@),
                sum_of(views.take(k as int).flatten()) == (if stopped {
                    SumView::NotNumeric
                } else {
                    SumView::Total(total as int)
                }),
                self@.merge == MergePolicy::Sum,
                self@.failure is None,
            decreases self.legs.len() - k,
        {
            let leg = &self.legs[k];
            let ghost done = views.take(k as int).flatten();
            let ghost lv = wire::backend_views(leg@);
            let mut i: usize = 0;
            assert(done + lv.take(0) =~= done);
            while i < leg.len()
                invariant
                    i <= leg.len(),
                    lv == wire::backend_views(leg@),
                    sum_of(done + lv.take(i as int)) == (if stopped {
                        SumView::NotNumeric
                    } else {
                        SumView::Total(total as int)
                    }),
                    k < self.legs.len(),
                    views == leg_messages(self.legs@),
                    done == views.take(k as int).flatten(),
                    lv == views[k as int],
                    self@.merge == MergePolicy::Sum,
                    self@.failure is None,
                decreases leg.len() - i,
            {
                proof {
                    let next = done + lv.take(i + 1);
                    assert(next.drop_last() =~= done + lv.take(i as int));
                    assert(next.last() == leg@[i as int]@);
                }
                match &leg[i] {
                    BackendMessage::DataRow { row } => {
                        if !stopped {
                            match add_row(total, row) {
                                SumStep::Total(t) => {
                                    total = t;
                                },
                                SumStep::NotNumeric => {
                                    stopped = true;
                                },
                                SumStep::Unsound => {
                                    proof {
                                        let rest = lv.skip(i + 1) + views.skip(k + 1).flatten();
                                        lemma_flatten_split(views, k as int);
                                        assert(lv =~= lv.take(i + 1) + lv.skip(i + 1));
                                        assert(views.flatten() =~= (done + lv.take(i + 1)) + rest);
                                        lemma_unsound_stays(done + lv.take(i + 1), rest);
                                    }
                                    return false;
                                },
                            }
                        }
                    },
                    _ => {},
                }
                i += 1;
            }
            proof {
                assert(lv.take(leg.len() as int) =~= lv);
                let next = views.take(k + 1);
                assert(next.drop_last() =~= views.take(k as int));
                assert(next.last() == lv);
                next.lemma_flatten_and_flatten_alt_are_equivalent();
                views.take(k as int).lemma_flatten_and_flatten_alt_are_equivalent();
                assert(next.flatten_alt() == next.drop_last().flatten_alt() + next.last());
            }
            k += 1;
        }
        assert(views.take(self.legs.len() as int) =~= views);
        true
    }

    /// Merge the legs into one result for the client.
    pub fn finish(self) -> (r: Result<Merged, ScatterFailure>)
        requires
            self@.merge == MergePolicy::Sum && self@.failure is None ==> sum_of(
                self@.all_messages(),
            ) != SumView::Unsound,
        ensures
            self@.finishes(r),
    {
        if let Some(failure) = self.failure {
            return Err(failure);
        }
        let session_status = self.session_status;
        let all = Self::take_messages(self.legs);
        match self.merge {
            MergePolicy::Concat => {
                let (out, rows) = concat(all);
                let mut messages = out;
                let ghost before = messages@;
                messages.push(tag_message(self.tag.as_str(), rows));
                assert(wire::backend_views(messages@) =~= wire::backend_views(before).push(
                    tag_with_count(self.tag@, rows as nat),
                ));
                Ok(Merged { messages, rows, session_status })
            },
            MergePolicy::Sum => {
                let (description, outcome) = sum(all);
                match outcome {
                    None => Err(
                        ScatterFailure {
                            error: ErrorInfo::new(
                                "ERROR",
                                "0A000",
                                "pgferry scatter: Sum merge requires a numeric first column",
                            ),
                            session_lease_broken: false,
                            session_status,
                        },
                    ),
                    Some(total) => {
                        let mut messages = description;
                        let ghost first = messages@;
                        let shown = text::decimal_int_text(total);
                        let bytes = shown.as_str().as_bytes_vec();
                        let mut data: Vec<u8> = Vec::new();
                        intercept::put_len(&mut data, bytes.len());
                        wire::put_bytes(&mut data, bytes.as_slice(), 0, bytes.len());
                        assert(bytes@.subrange(0, bytes@.len() as int) =~= bytes@);
                        assert(data@ =~= intercept::encode_value(Some(bytes@)));
                        let row = BackendMessage::DataRow { row: DataRow { data, field_count: 1 } };
                        messages.push(row);
                        let mut tag = self.tag;
                        tag.append(" 1");
                        let done = BackendMessage::CommandComplete { tag };
                        messages.push(done);
                        assert(wire::backend_views(messages@) =~= wire::backend_views(first).push(
                            row@,
                        ).push(done@));
                        Ok(Merged { messages, rows: 1, session_status })
                    },
                }
            },
        }
    }
}

/// Keep the first description of rows and every row, in order; the second
/// result counts the rows.
fn concat(messages: Vec<BackendMessage>) -> (r: (Vec<BackendMessage>, u64))
    ensures
        wire::backend_views(r.0@) == one_result_set(wire::backend_views(messages@)),
        r.1 == rows_in(wire::backend_views(messages@)),
{
    let ghost views = wire::backend_views(messages@);
    let count: usize = messages.len();
    let mut turned = turn_over(messages);
    let mut out: Vec<BackendMessage> = Vec::new();
    let mut rows: u64 = 0;
    let mut described: bool = false;
    let ghost mut done: int = 0;
    assert(views.take(0) =~= Seq::<wire::BackendView>::empty());
    assert(wire::backend_views(out@) =~= Seq::<wire::BackendView>::empty());
    while turned.len() > 0
        invariant
            0 <= done,
            done + turned@.len() == views.len(),
            forall|i: int|
                0 <= i < turned@.len() ==> (#[trigger] turned@[i])@ == views[views.len() - 1 - i],
            wire::backend_views(out@) == one_result_set(views.take(done)),
            rows == rows_in(views.take(done)),
            rows <= done,
            views.len() == count,
            described == (first_description(views.take(done)).len() > 0),
        decreases turned.len(),
    {
        match turned.pop() {
            Some(m) => {
                let ghost before = out@;
                proof {
                    let next = views.take(done + 1);
                    assert(next.drop_last() =~= views.take(done));
                    assert(next.last() == m@);
                }
                match &m {
                    BackendMessage::DataRow { .. } => {
                        rows += 1;
                        out.push(m);
                        assert(wire::backend_views(out@) =~= wire::backend_views(before).push(m@));
                    },
                    BackendMessage::RowDescription { .. } => {
                        if !described {
                            described = true;
                            out.push(m);
                            assert(wire::backend_views(out@) =~= wire::backend_views(before).push(
                                m@,
                            ));
                        }
                    },
                    _ => {},
                }
                proof {
                    done = done + 1;
                }
            },
            None => {},
        }
    }
    assert(views.take(done) =~= views);
    (out, rows)
}

/// The messages in the opposite order.
fn turn_over(messages: Vec<BackendMessage>) -> (r: Vec<BackendMessage>)
    ensures
        r.len() == messages.len(),
        forall|i: int|
            0 <= i < r@.len() ==> #[trigger] r@[i] == messages@[messages@.len() - 1 - i],
{
    let mut messages = messages;
    let ghost whole = messages@;
    let mut r: Vec<BackendMessage> = Vec::new();
    while messages.len() > 0
        invariant
            messages@.len() + r@.len() == whole.len(),
            messages@ == whole.take(messages@.len() as int),
            forall|i: int| 0 <= i < r@.len() ==> #[trigger] r@[i] == whole[whole.len() - 1 - i],
        decreases messages.len(),
    {
        match messages.pop() {
            Some(m) => {
                r.push(m);
            },
            None => {},
        }
    }
    r
}

/// The first description of rows, and the sum of the rows' first columns;
/// `None` where one is not numeric.
fn sum(messages: Vec<BackendMessage>) -> (r: (Vec<BackendMessage>, Option<i128>))
    requires
        sum_of(wire::backend_views(messages@)) != SumView::Unsound,
    ensures
        wire::backend_views(r.0@) == first_description(wire::backend_views(messages@)),
        match r.1 {
            Some(total) => sum_of(wire::backend_views(messages@)) == SumView::Total(total as int),
            None => sum_of(wire::backend_views(messages@)) == SumView::NotNumeric,
        },
{
    let ghost views = wire::backend_views(messages@);
    let mut turned = turn_over(messages);
    let mut description: Vec<BackendMessage> = Vec::new();
    let mut total: i128 = 0;
    let mut numeric: bool = true;
    let ghost mut done: int = 0;
    assert(views.take(0) =~= Seq::<wire::BackendView>::empty());
    assert(wire::backend_views(description@) =~= Seq::<wire::BackendView>::empty());
    while turned.len() > 0
        invariant
            0 <= done,
            done + turned@.len() == views.len(),
            forall|i: int|
                0 <= i < turned@.len() ==> (#[trigger] turned@[i])@ == views[views.len() - 1 - i],
            wire::backend_views(description@) == first_description(views.take(done)),
            sum_of(views.take(done)) == (if numeric {
                SumView::Total(total as int)
            } else {
                SumView::NotNumeric
            }),
            sum_of(views) != SumView::Unsound,
        decreases turned.len(),
    {
        match turned.pop() {
            Some(m) => {
                let ghost before = description@;
                proof {
                    let next = views.take(done + 1);
                    assert(next.drop_last() =~= views.take(done));
                    assert(next.last() == m@);
                }
                match m {
                    BackendMessage::DataRow { row } => {
                        if numeric {
                            match add_row(total, &row) {
                                SumStep::Total(t) => {
                                    total = t;
                                },
                                SumStep::NotNumeric => {
                                    numeric = false;
                                },
                                SumStep::Unsound => {
                                    proof {
                                        assert(views =~= views.take(done + 1) + views.skip(
                                            done + 1,
                                        ));
                                        lemma_unsound_stays(
                                            views.take(done + 1),
                                            views.skip(done + 1),
                                        );
                                        assert(false);
                                    }
                                },
                            }
                        }
                    },
                    BackendMessage::RowDescription { fields } => {
                        let ghost view = wire::BackendView::RowDescription {
                            fields: wire::column_views(fields@),
                        };
                        if description.len() == 0 {
                            description.push(BackendMessage::RowDescription { fields });
                            assert(wire::backend_views(description@) =~= seq![view]);
                        }
                    },
                    _ => {},
                }
                proof {
                    done = done + 1;
                }
            },
            None => {},
        }
    }
    assert(views.take(done) =~= views);
    (
        description,
        if numeric {
            Some(total)
        } else {
            None
        },
    )
}

proof fn lemma_unsound_stays(a: Seq<wire::BackendView>, b: Seq<wire::BackendView>)
    requires
        sum_of(a) == SumView::Unsound,
    ensures
        sum_of(a + b) == SumView::Unsound,
    decreases b.len(),
{
    if b.len() == 0 {
        assert(a + b =~= a);
    } else {
        lemma_unsound_stays(a, b.drop_last());
        assert((a + b).drop_last() =~= a + b.drop_last());
    }
}

/// A flattened list, split behind one of its parts.
proof fn lemma_flatten_split(s: Seq<Seq<wire::BackendView>>, k: int)
    requires
        0 <= k < s.len(),
    ensures
        s.flatten() == s.take(k).flatten() + s[k] + s.skip(k + 1).flatten(),
    decreases k,
{
    if k == 0 {
        assert(s.take(0) =~= Seq::<Seq<wire::BackendView>>::empty());
        assert(s.drop_first() =~= s.skip(1));
        assert(s.flatten() =~= s.take(0).flatten() + s[0] + s.skip(1).flatten());
    } else {
        let t = s.drop_first();
        lemma_flatten_split(t, k - 1);
        assert(t.take(k - 1) =~= s.take(k).drop_first());
        assert(t.skip(k) =~= s.skip(k + 1));
        assert(s.flatten() =~= s.take(k).flatten() + s[k] + s.skip(k + 1).flatten());
    }
}

// ---------------------------------------------------------------------------
// laws
// ---------------------------------------------------------------------------

proof fn lemma_rows_append(a: Seq<wire::BackendView>, b: Seq<wire::BackendView>)
    ensures
        rows_in(a + b) == rows_in(a) + rows_in(b),
    decreases b.len(),
{
    if b.len() == 0 {
        assert(a + b =~= a);
    } else {
        lemma_rows_append(a, b.drop_last());
        assert((a + b).drop_last() =~= a + b.drop_last());
    }
}

/// Concatenation loses no row and invents none: the client gets exactly as
/// many rows as the legs brought, the command tag counts them, and there is
/// at most one description of rows.
pub proof fn law_concat_counts(messages: Seq<wire::BackendView>, tag: Seq<char>)
    ensures
        ({
            &&& merged_messages(messages, MergePolicy::Concat, tag) matches Some((out, rows))
            &&& rows_in(out) == rows_in(messages)
            &&& rows == rows_in(messages)
            &&& out.last() == tag_with_count(tag, rows_in(messages))
        }),
        first_description(messages).len() <= 1,
{
    lemma_result_set_count(messages);
    let out = one_result_set(messages);
    let full = out.push(tag_with_count(tag, rows_in(messages)));
    assert(full.drop_last() =~= out);
}

proof fn lemma_result_set_count(messages: Seq<wire::BackendView>)
    ensures
        rows_in(one_result_set(messages)) == rows_in(messages),
        first_description(messages).len() <= 1,
    decreases messages.len(),
{
    if messages.len() > 0 {
        lemma_result_set_count(messages.drop_last());
        let out = one_result_set(messages);
        let before = one_result_set(messages.drop_last());
        if out != before {
            assert(out.drop_last() =~= before);
        }
    }
}

/// The rows of one leg after the other: the rows that the client gets for two
/// batches are those of the first and then those of the second.
pub proof fn law_rows_in_leg_order(a: Seq<wire::BackendView>, b: Seq<wire::BackendView>)
    ensures
        only_rows(one_result_set(a + b)) == only_rows(a) + only_rows(b),
        rows_in(a + b) == rows_in(a) + rows_in(b),
{
    lemma_rows_append(a, b);
    lemma_result_set_rows(a + b);
    lemma_only_rows_append(a, b);
}

/// The rows among the messages, in order.
pub open spec fn only_rows(messages: Seq<wire::BackendView>) -> Seq<wire::BackendView>
    decreases messages.len(),
{
    if messages.len() == 0 {
        Seq::empty()
    } else {
        let before = only_rows(messages.drop_last());
        if messages.last() is DataRow {
            before.push(messages.last())
        } else {
            before
        }
    }
}

proof fn lemma_only_rows_append(a: Seq<wire::BackendView>, b: Seq<wire::BackendView>)
    ensures
        only_rows(a + b) == only_rows(a) + only_rows(b),
    decreases b.len(),
{
    if b.len() == 0 {
        assert(a + b =~= a);
        assert(only_rows(a) + only_rows(b) =~= only_rows(a));
    } else {
        lemma_only_rows_append(a, b.drop_last());
        assert((a + b).drop_last() =~= a + b.drop_last());
        assert(only_rows(a + b) =~= only_rows(a) + only_rows(b));
    }
}

proof fn lemma_result_set_rows(messages: Seq<wire::BackendView>)
    ensures
        only_rows(one_result_set(messages)) == only_rows(messages),
    decreases messages.len(),
{
    if messages.len() > 0 {
        lemma_result_set_rows(messages.drop_last());
        let out = one_result_set(messages);
        let before = one_result_set(messages.drop_last());
        if out != before {
            assert(out.drop_last() =~= before);
        }
    }
}

/// The sum of the values of the first column.
pub open spec fn column_total(messages: Seq<wire::BackendView>) -> int
    decreases messages.len(),
{
    if messages.len() == 0 {
        0
    } else {
        column_total(messages.drop_last()) + match messages.last() {
            wire::BackendView::DataRow { row } => first_column(row)->0,
            _ => 0,
        }
    }
}

/// Summing merges to the sum of all values, whatever legs they came from, and
/// the row that carries it reads back as that number.
pub proof fn law_sum_total(messages: Seq<wire::BackendView>)
    ensures
        sum_of(messages) matches SumView::Total(total) ==> {
            &&& total == column_total(messages)
            &&& i128::MIN <= total <= i128::MAX
            &&& text::parse_int(text::decimal_int(total)) == Some(total)
            &&& intercept::decode_values(sum_row(total)->row.data, 1) == Some(
                seq![Some(encode_utf8(text::decimal_int(total)))],
            )
        },
    decreases messages.len(),
{
    if messages.len() > 0 {
        law_sum_total(messages.drop_last());
    }
    match sum_of(messages) {
        SumView::Total(total) => {
            text::law_integer_round_trip(total);
            let value = Some(encode_utf8(text::decimal_int(total)));
            let values = seq![value];
            text::lemma_decimal_int_short(total);
            assert(intercept::encode_values(values) =~= intercept::encode_value(value)) by {
                assert(values.drop_last() =~= Seq::<Option<Seq<u8>>>::empty());
                assert(values.last() == value);
                assert(intercept::encode_values(values.drop_last()) =~= Seq::<u8>::empty());
            }
            intercept::law_row_round_trip(values, seq![]);
        },
        _ => {},
    }
}

/// A failed leg ends the scatter whatever else is running, and the leg on the
/// session's own connection is run once: when all others have come in and
/// none has failed.
pub proof fn law_fail_fast(
    s: GatherView,
    leg: int,
    endpoint: Seq<char>,
    result: LegResultView,
    broken: bool,
    status: Option<TransactionStatus>,
    running: nat,
    own: Option<usize>,
)
    ensures
        result.error is Some || broken ==> s.pooled(leg, endpoint, result, broken).next(
            running,
            own,
        ) == GatherStep::Finish,
        s.next(running, own) is RunOwn ==> running == 0 && s.failure is None && s.next(
            running,
            own,
        ) == (GatherStep::RunOwn { leg: own->0 }),
        s.own(leg, endpoint, result, status).next(0, own) == GatherStep::Finish,
        s.failure is Some ==> {
            &&& s.pooled(leg, endpoint, result, broken).failure == s.failure
            &&& s.own(leg, endpoint, result, status).failure == s.failure
        },
{
}

/// The client sees the failed shard's own error: when a leg's query fails, the
/// failure of the scatter has the code and the message that the shard sent.
pub proof fn law_shard_error_shown(
    s: GatherView,
    leg: int,
    endpoint: Seq<char>,
    before: LegResultView,
    error: Seq<(u8, Seq<char>)>,
    broken: bool,
    status: Option<TransactionStatus>,
)
    requires
        s.failure is None,
    ensures
        ({
            let result = before.after(
                wire::UpstreamEventView::Message(wire::BackendView::ErrorResponse { error }),
            );
            let pooled = s.pooled(leg, endpoint, result, broken).failure;
            let own = s.own(leg, endpoint, result, status).failure;
            &&& pooled is Some && own is Some
            &&& wire::field_value(pooled->0.error, 0x43) == wire::field_value(error, 0x43)
            &&& wire::field_value(pooled->0.error, 0x4d) == wire::field_value(error, 0x4d)
            &&& own->0.error == pooled->0.error
            &&& !pooled->0.session_lease_broken
            &&& own->0.session_lease_broken == (status is None)
        }),
{
    assert(wire::known_keys()[2] == 0x43 && wire::known_keys()[3] == 0x4d);
    wire::law_normalized_fields(error, 0x43);
    wire::law_normalized_fields(error, 0x4d);
}

/// A row's first column is the text of its first value, trimmed, read as an
/// integer, whatever values follow it; one that is absent, not UTF-8 or not an
/// integer is not numeric.
pub proof fn law_first_column(field_count: int, bytes: Seq<u8>, rest: Seq<u8>)
    requires
        bytes.len() <= i32::MAX,
    ensures
        ({
            let row = wire::RowView {
                field_count,
                data: intercept::encode_value(Some(bytes)) + rest,
            };
            &&& framed(row)
            &&& valid_utf8(bytes) ==> first_column(row) == text::parse_int(
                text::trim(decode_utf8(bytes)),
            )
            &&& !valid_utf8(bytes) ==> first_column(row) is None
        }),
        ({
            let row = wire::RowView { field_count, data: intercept::encode_value(None) + rest };
            &&& framed(row)
            &&& first_column(row) is None
        }),
{
    let data = intercept::encode_value(Some(bytes)) + rest;
    assert(data =~= wire::be_i32(bytes.len() as int) + (bytes + rest));
    wire::law_i32_round_trip(bytes.len() as int, bytes + rest);
    assert(data.subrange(4, 4 + bytes.len() as int) =~= bytes);
    wire::law_i32_round_trip(-1, rest);
}

proof fn lemma_column_total_append(a: Seq<wire::BackendView>, b: Seq<wire::BackendView>)
    ensures
        column_total(a + b) == column_total(a) + column_total(b),
    decreases b.len(),
{
    if b.len() == 0 {
        assert(a + b =~= a);
    } else {
        lemma_column_total_append(a, b.drop_last());
        assert((a + b).drop_last() =~= a + b.drop_last());
    }
}

/// The total adds up over the legs: that of two batches is the sum of theirs,
/// that of one row is its first column, and other messages add nothing.
pub proof fn law_column_total(
    a: Seq<wire::BackendView>,
    b: Seq<wire::BackendView>,
    m: wire::BackendView,
    row: wire::RowView,
    value: int,
)
    requires
        first_column(row) == Some(value),
    ensures
        column_total(a + b) == column_total(a) + column_total(b),
        column_total(seq![]) == 0,
        column_total(seq![wire::BackendView::DataRow { row }]) == value,
        !(m is DataRow) ==> column_total(seq![m]) == 0,
{
    lemma_column_total_append(a, b);
    reveal_with_fuel(column_total, 2);
    assert(seq![m].drop_last() =~= seq![]);
    assert(seq![wire::BackendView::DataRow { row }].drop_last() =~= seq![]);
}

proof fn lemma_sum_succeeds(messages: Seq<wire::BackendView>)
    ensures
        sum_of(messages) is Total <==> summable(messages),
        sum_of(messages) matches SumView::Total(total) ==> total == column_total(messages),
    decreases messages.len(),
{
    assert(messages.take(messages.len() as int) =~= messages);
    if messages.len() > 0 {
        let before = messages.drop_last();
        lemma_sum_succeeds(before);
        assert forall|k: int| 0 <= k <= before.len() implies #[trigger] before.take(k)
            == messages.take(k) by {
            assert(before.take(k) =~= messages.take(k));
        }
        if summable(messages) {
            assert forall|k: int| 0 <= k < before.len() implies (#[trigger] before[k]
                matches wire::BackendView::DataRow { row } ==> framed(row) && first_column(
                row,
            ) is Some) by {
                assert(before[k] == messages[k]);
            }
            assert forall|k: int| 0 <= k <= before.len() implies i128::MIN <= column_total(
                #[trigger] before.take(k),
            ) <= i128::MAX by {
                assert(before.take(k) == messages.take(k));
            }
            assert(summable(before));
            assert(messages[messages.len() - 1] == messages.last());
        } else if sum_of(messages) is Total {
            assert(sum_of(before) is Total);
            assert forall|k: int| 0 <= k < messages.len() implies (#[trigger] messages[k]
                matches wire::BackendView::DataRow { row } ==> framed(row) && first_column(
                row,
            ) is Some) by {
                if k < before.len() {
                    assert(before[k] == messages[k]);
                }
            }
            lemma_total_in_range(messages);
            assert forall|k: int| 0 <= k <= messages.len() implies i128::MIN <= column_total(
                #[trigger] messages.take(k),
            ) <= i128::MAX by {
                if k <= before.len() {
                    assert(before.take(k) == messages.take(k));
                } else {
                    assert(messages.take(k) =~= messages);
                }
            }
        }
    } else {
        assert forall|k: int| 0 <= k <= messages.len() implies i128::MIN <= column_total(
            #[trigger] messages.take(k),
        ) <= i128::MAX by {
            assert(messages.take(k) =~= messages);
        }
    }
}

proof fn lemma_total_in_range(messages: Seq<wire::BackendView>)
    ensures
        sum_of(messages) matches SumView::Total(total) ==> total == column_total(messages)
            && i128::MIN <= total <= i128::MAX,
    decreases messages.len(),
{
    if messages.len() > 0 {
        lemma_total_in_range(messages.drop_last());
    }
}

/// Whether the rows among the messages can be summed: every one holds a number
/// in its first column, and every running total is a 128-bit integer.
pub open spec fn summable(messages: Seq<wire::BackendView>) -> bool {
    &&& forall|k: int|
        0 <= k < messages.len() ==> (#[trigger] messages[k] matches wire::BackendView::DataRow {
            row,
        } ==> framed(row) && first_column(row) is Some)
    &&& forall|k: int|
        0 <= k <= messages.len() ==> i128::MIN <= column_total(#[trigger] messages.take(k))
            <= i128::MAX
}

proof fn lemma_first_description(messages: Seq<wire::BackendView>)
    ensures
        first_description(messages) == (if messages.filter(
            |m: wire::BackendView| m is RowDescription,
        ).len() == 0 {
            Seq::empty()
        } else {
            seq![messages.filter(|m: wire::BackendView| m is RowDescription)[0]]
        }),
    decreases messages.len(),
{
    reveal(Seq::filter);
    if messages.len() > 0 {
        lemma_first_description(messages.drop_last());
    }
}

/// What the client is sent for summed legs: the first description of rows that
/// a leg sent, exactly one row of one column whose text reads as the sum of the
/// first columns of all the legs' rows, and the tag with a count of one. That
/// is so whenever all rows are numeric and the totals are 128-bit integers,
/// negative ones too, and only then.
pub proof fn law_sum_merged(messages: Seq<wire::BackendView>, tag: Seq<char>)
    ensures
        merged_messages(messages, MergePolicy::Sum, tag) is Some <==> summable(messages),
        merged_messages(messages, MergePolicy::Sum, tag) matches Some((out, rows)) ==> {
            let described = messages.filter(|m: wire::BackendView| m is RowDescription);
            let n = out.len() as int;
            &&& rows == 1
            &&& n >= 2
            &&& out.take(n - 2) == (if described.len() == 0 {
                Seq::empty()
            } else {
                seq![described[0]]
            })
            &&& out[n - 1] == (wire::BackendView::CommandComplete { tag: tag + " 1"@ })
            &&& out[n - 2] matches wire::BackendView::DataRow { row }
            &&& row.field_count == 1
            &&& intercept::decode_values(row.data, 1) matches Some(values)
            &&& values.len() == 1
            &&& values[0] matches Some(bytes)
            &&& valid_utf8(bytes)
            &&& text::parse_int(decode_utf8(bytes)) == Some(column_total(messages))
            &&& decode_utf8(bytes)[0] != '+'
        },
{
    lemma_sum_succeeds(messages);
    lemma_first_description(messages);
    law_sum_total(messages);
    match sum_of(messages) {
        SumView::Total(total) => {
            let chars = text::decimal_int(total);
            let bytes = encode_utf8(chars);
            let (out, rows) = merged_messages(messages, MergePolicy::Sum, tag)->0;
            let n: int = out.len() as int;
            assert(out.take(n - 2) =~= first_description(messages));
            assert(out[n - 2] == sum_row(total));
            vstd::utf8::encode_utf8_valid_utf8(chars);
            vstd::utf8::encode_utf8_decode_utf8(chars);
            text::law_decimal_round_trip(if total < 0 { (-total) as nat } else { total as nat });
        },
        _ => {},
    }
}

proof fn lemma_only_rows(messages: Seq<wire::BackendView>)
    ensures
        only_rows(messages) == messages.filter(|m: wire::BackendView| m is DataRow),
        rows_in(messages) == only_rows(messages).len(),
    decreases messages.len(),
{
    reveal(Seq::filter);
    if messages.len() > 0 {
        lemma_only_rows(messages.drop_last());
    }
}

proof fn lemma_one_result_set(messages: Seq<wire::BackendView>)
    ensures
        only_descriptions(one_result_set(messages)) == first_description(messages),
        forall|i: int|
            0 <= i < one_result_set(messages).len() ==> (#[trigger] one_result_set(messages)[i])
                is DataRow || one_result_set(messages)[i] is RowDescription,
        first_description(messages).len() <= 1,
    decreases messages.len(),
{
    reveal(Seq::filter);
    if messages.len() > 0 {
        lemma_one_result_set(messages.drop_last());
        let out = one_result_set(messages);
        let before = one_result_set(messages.drop_last());
        if out != before {
            assert(out.drop_last() =~= before);
        }
    }
}

/// The descriptions of rows among the messages.
pub open spec fn only_descriptions(messages: Seq<wire::BackendView>) -> Seq<wire::BackendView> {
    messages.filter(|m: wire::BackendView| m is RowDescription)
}

/// What the client is sent for concatenated legs: every row of every leg, as it
/// came and in order, the first description alone, nothing else, and the tag
/// with the number of those rows.
pub proof fn law_concat_merged(messages: Seq<wire::BackendView>, tag: Seq<char>)
    ensures
        merged_messages(messages, MergePolicy::Concat, tag) matches Some((out, rows)) && {
            let sent = messages.filter(|m: wire::BackendView| m is DataRow);
            let described = only_descriptions(messages);
            &&& rows == sent.len()
            &&& out.len() == sent.len() + 1 + (if described.len() == 0 {
                0int
            } else {
                1int
            })
            &&& out.drop_last().filter(|m: wire::BackendView| m is DataRow) == sent
            &&& only_descriptions(out.drop_last()) == (if described.len() == 0 {
                Seq::empty()
            } else {
                seq![described[0]]
            })
            &&& out.last() == (wire::BackendView::CommandComplete {
                tag: tag + " "@ + text::decimal(sent.len()),
            })
        },
{
    lemma_only_rows(messages);
    lemma_one_result_set(messages);
    lemma_first_description(messages);
    lemma_result_set_rows(messages);
    lemma_only_rows(one_result_set(messages));
    let (out, rows) = merged_messages(messages, MergePolicy::Concat, tag)->0;
    assert(out.drop_last() =~= one_result_set(messages));
    lemma_two_kinds(one_result_set(messages));
}

proof fn lemma_two_kinds(out: Seq<wire::BackendView>)
    requires
        forall|i: int|
            0 <= i < out.len() ==> (#[trigger] out[i]) is DataRow || out[i] is RowDescription,
    ensures
        out.len() == out.filter(|m: wire::BackendView| m is DataRow).len() + only_descriptions(
            out,
        ).len(),
    decreases out.len(),
{
    reveal(Seq::filter);
    if out.len() > 0 {
        lemma_two_kinds(out.drop_last());
    }
}

proof fn lemma_description_leads(messages: Seq<wire::BackendView>)
    requires
        messages.len() > 0,
        messages[0] is RowDescription,
    ensures
        first_description(messages) == seq![messages[0]],
        one_result_set(messages) == seq![messages[0]] + only_rows(messages),
    decreases messages.len(),
{
    reveal_with_fuel(first_description, 2);
    reveal_with_fuel(one_result_set, 2);
    reveal_with_fuel(only_rows, 2);
    if messages.len() > 1 {
        lemma_description_leads(messages.drop_last());
        assert(one_result_set(messages) =~= seq![messages[0]] + only_rows(messages));
    } else {
        assert(messages.drop_last() =~= seq![]);
        assert(one_result_set(messages) =~= seq![messages[0]] + only_rows(messages));
    }
}

/// When the first leg starts by describing its rows, the client gets that
/// description, then the rows of all legs in leg order, then the tag.
pub proof fn law_concat_led_by_description(
    messages: Seq<wire::BackendView>,
    tag: Seq<char>,
)
    requires
        messages.len() > 0,
        messages[0] is RowDescription,
    ensures
        ({
            let sent = messages.filter(|m: wire::BackendView| m is DataRow);
            merged_messages(messages, MergePolicy::Concat, tag) == Some(
                (
                    seq![messages[0]] + sent + seq![
                        wire::BackendView::CommandComplete {
                            tag: tag + " "@ + text::decimal(sent.len()),
                        },
                    ],
                    sent.len(),
                ),
            )
        }),
{
    lemma_description_leads(messages);
    lemma_only_rows(messages);
    let sent = messages.filter(|m: wire::BackendView| m is DataRow);
    let last = wire::BackendView::CommandComplete { tag: tag + " "@ + text::decimal(sent.len()) };
    assert(one_result_set(messages).push(last) =~= seq![messages[0]] + sent + seq![last]);
}

/// The messages that are merged are those of the legs, one leg after the other
/// in leg order, each complete.
pub proof fn law_all_messages(s: GatherView, before: GatherView, behind: GatherView, k: int)
    requires
        0 <= k < s.legs.len(),
        before.legs == s.legs.take(k),
        behind.legs == s.legs.skip(k + 1),
    ensures
        s.all_messages() == before.all_messages() + s.legs[k] + behind.all_messages(),
        before.legs.len() == 0 ==> before.all_messages().len() == 0,
{
    lemma_flatten_split(s.legs, k);
}

/// A leg that comes in without an error has its messages put in its own place;
/// the other legs, the merge and the tag stay, and nothing fails. Only the leg
/// on the session's own connection tells the session's state.
pub proof fn law_leg_comes_in(
    s: GatherView,
    leg: int,
    endpoint: Seq<char>,
    result: LegResultView,
    status: TransactionStatus,
    other: int,
)
    requires
        0 <= leg < s.legs.len(),
        0 <= other < s.legs.len(),
        result.error is None,
    ensures
        ({
            let t = s.pooled(leg, endpoint, result, false);
            &&& t.legs.len() == s.legs.len()
            &&& t.legs[leg] == result.messages
            &&& other != leg ==> t.legs[other] == s.legs[other]
            &&& t.merge == s.merge && t.tag == s.tag
            &&& t.failure == s.failure
            &&& t.session_status == s.session_status
        }),
        ({
            let t = s.own(leg, endpoint, result, Some(status));
            &&& t.legs.len() == s.legs.len()
            &&& t.legs[leg] == result.messages
            &&& other != leg ==> t.legs[other] == s.legs[other]
            &&& t.merge == s.merge && t.tag == s.tag
            &&& t.failure == s.failure
            &&& t.session_status == Some(status)
        }),
{
}

/// A leg whose connection broke without an error of its own fails the scatter
/// with one that names the shard; nothing else about the gather changes.
pub proof fn law_lost_shard(
    s: GatherView,
    leg: int,
    endpoint: Seq<char>,
    result: LegResultView,
    messages: Seq<wire::BackendView>,
)
    requires
        s.failure is None,
        result.error is None,
    ensures
        ({
            let t = s.pooled(leg, endpoint, result, true);
            let error = t.failure->0.error;
            &&& t == (GatherView { failure: t.failure, ..s })
            &&& t.failure is Some
            &&& wire::field_value(error, 0x43) == "08006"@
            &&& wire::field_value(error, 0x53) == "ERROR"@
            &&& wire::field_value(error, 0x4d) == "shard "@ + endpoint + " failed"@
            &&& !t.failure->0.session_lease_broken
            &&& t.failure->0.session_status == s.session_status
        }),
        ({
            let t = s.own(leg, endpoint, result, None);
            let error = t.failure->0.error;
            &&& t == (GatherView { failure: t.failure, session_status: None, ..s })
            &&& t.failure is Some
            &&& wire::field_value(error, 0x43) == "08006"@
            &&& wire::field_value(error, 0x4d) == "shard "@ + endpoint + " failed"@
            &&& t.failure->0.session_lease_broken
            &&& t.failure->0.session_status is None
        }),
{
    wire::law_error_fields("ERROR"@, "08006"@, "shard "@ + endpoint + " failed"@);
}

/// A leg keeps every message in the order of arrival. `ReadyForQuery` only ends
/// it, a changed parameter only marks the connection as one to reset, and an
/// error is kept apart; a lost connection adds nothing.
pub proof fn law_leg_collects(r: LegResultView, m: wire::BackendView)
    ensures
        ({
            let t = r.after(wire::UpstreamEventView::Message(m));
            &&& t.messages == (if m is ReadyForQuery || m is ParameterStatus || m is ErrorResponse {
                r.messages
            } else {
                r.messages + seq![m]
            })
            &&& t.dirty <==> r.dirty || m is ParameterStatus
            &&& !(m is ErrorResponse) ==> t.error == r.error
            &&& m matches wire::BackendView::ErrorResponse { error } ==> t.error is Some
                && wire::field_value(t.error->0, 0x43) == wire::field_value(error, 0x43)
                && wire::field_value(t.error->0, 0x4d) == wire::field_value(error, 0x4d)
        }),
        r.after(wire::UpstreamEventView::Closed) == r,
{
    match m {
        wire::BackendView::ErrorResponse { error } => {
            assert(wire::known_keys()[2] == 0x43 && wire::known_keys()[3] == 0x4d);
            wire::law_normalized_fields(error, 0x43);
            wire::law_normalized_fields(error, 0x4d);
        },
        _ => {},
    }
    assert(r.messages.push(m) =~= r.messages + seq![m]);
}

/// The errors of a scatter name what is wrong.
pub proof fn law_scatter_errors(id: Seq<char>)
    ensures
        wire::field_value(unknown_endpoint_error(id), 0x53) == "ERROR"@,
        wire::field_value(unknown_endpoint_error(id), 0x43) == "0A000"@,
        wire::field_value(unknown_endpoint_error(id), 0x4d) == "pgferry scatter: unknown endpoint "@
            + text::quoted_text(id),
        wire::field_value(not_numeric_error(), 0x53) == "ERROR"@,
        wire::field_value(not_numeric_error(), 0x43) == "0A000"@,
        wire::field_value(not_numeric_error(), 0x4d) 
            == "pgferry scatter: Sum merge requires a numeric first column"@,
{
    wire::law_error_fields(
        "ERROR"@,
        "0A000"@,
        "pgferry scatter: unknown endpoint "@ + text::quoted_text(id),
    );
    wire::law_error_fields(
        "ERROR"@,
        "0A000"@,
        "pgferry scatter: Sum merge requires a numeric first column"@,
    );
}

/// A hash picks the shard at its remainder, so that every shard is picked by
/// some hashes and all hashes with one remainder pick the same.
pub proof fn law_shard_index(hash: u64, n: nat)
    requires
        0 < n <= usize::MAX,
    ensures
        0 <= shard_index(hash, n) < n,
        hash <= usize::MAX ==> shard_index(hash, n) == hash % (n as u64),
        hash < n ==> shard_index(hash, n) == hash,
{
    if hash < n {
        vstd::arithmetic::div_mod::lemma_small_mod(hash as nat, n);
    }
}

/// A leg is one for the route exactly when an endpoint of the route has the
/// leg's id.
pub proof fn law_leg_known(route: RouteConfig, leg: LegView)
    ensures
        leg_known(route, leg) <==> exists|i: int|
            0 <= i < route.endpoints@.len() && (#[trigger] route.endpoints@[i]).id@ == leg.endpoint,
{
    let ids = config::endpoint_ids(route.endpoints@);
    text::law_first_index(ids, leg.endpoint);
    assert forall|i: int| 0 <= i < route.endpoints@.len() implies (#[trigger] ids[i])
        == route.endpoints@[i].id@ by {}
    if exists|i: int|
        0 <= i < route.endpoints@.len() && (#[trigger] route.endpoints@[i]).id@ == leg.endpoint {
        let i = choose|i: int|
            0 <= i < route.endpoints@.len() && (#[trigger] route.endpoints@[i]).id@ == leg.endpoint;
        assert(ids[i] == leg.endpoint);
    }
    if leg_known(route, leg) {
        let i = text::first_index(ids, leg.endpoint)->0;
        assert(route.endpoints@[i].id@ == ids[i]);
    }
}

/// A leg runs until `ReadyForQuery`, which tells the state of its connection, or
/// until the connection is lost; an error does not end it.
pub proof fn law_leg_runs_to_its_end(event: wire::UpstreamEventView, step: CollectStep)
    requires
        leg_means(event, step),
    ensures
        step is Broken <==> !(event is Message),
        step matches CollectStep::Done(status) ==> event == wire::UpstreamEventView::Message(
            wire::BackendView::ReadyForQuery { status },
        ),
        event matches wire::UpstreamEventView::Message(m) ==> {
            &&& m is ReadyForQuery <==> step is Done
            &&& m is ParameterStatus <==> step is SetParameter
        },
        step matches CollectStep::SetParameter { name, value } ==> event
            == wire::UpstreamEventView::Message(
            wire::BackendView::ParameterStatus { name: name@, value: value@ },
        ),
{
}

/// A request is run when the route has an endpoint for every leg; otherwise the
/// first leg without one is named, and no connection is to blame.
pub proof fn law_validated(
    request: RequestView,
    route: RouteConfig,
    r: Result<(), ScatterFailure>,
    k: int,
)
    requires
        validated(request, route, r),
        0 <= k < request.legs.len(),
    ensures
        r is Ok ==> leg_known(route, request.legs[k]),
        !leg_known(route, request.legs[k]) && (forall|i: int|
            0 <= i < k ==> leg_known(route, #[trigger] request.legs[i])) ==> {
            &&& r matches Err(failure)
            &&& failure@.error == unknown_endpoint_error(request.legs[k].endpoint)
            &&& !failure@.session_lease_broken
            &&& failure@.session_status is None
        },
{
    if !leg_known(route, request.legs[k]) && (forall|i: int|
        0 <= i < k ==> leg_known(route, #[trigger] request.legs[i])) {
        assert(r is Err);
    }
}

/// The session's own connection runs the first leg on the endpoint that it is
/// attached to; without a connection, or without such a leg, it runs none.
pub proof fn law_session_leg(
    request: RequestView,
    endpoint: Seq<char>,
    attached: bool,
    r: Option<usize>,
    k: int,
)
    requires
        is_session_leg(request, Some(endpoint), attached, r),
        0 <= k < request.legs.len(),
    ensures
        !attached ==> r is None,
        attached && request.legs[k].endpoint == endpoint && (forall|i: int|
            0 <= i < k ==> (#[trigger] request.legs[i]).endpoint != endpoint) ==> r is Some
            && r->0 == k,
        r is Some ==> r->0 < request.legs.len() && request.legs[r->0 as int].endpoint == endpoint,
{
    let ids = leg_endpoints(request);
    text::law_first_index(ids, endpoint);
    assert(ids[k] == request.legs[k].endpoint);
    match text::first_index(ids, endpoint) {
        Some(i) => {
            assert(ids[i] == request.legs[i].endpoint);
            if i < k {
                assert(request.legs[i].endpoint == endpoint);
            }
        },
        None => {},
    }
}

/// How a scatter ends. A failure of a leg is the failure of the whole. Without
/// one, concatenated legs always merge, to every row of every leg; summed legs
/// merge to the one row with the sum of all their first columns, and a row that
/// is not numeric fails them. What is known of the session's own connection is
/// handed on either way.
pub proof fn law_scatter_finished(s: GatherView, r: Result<Merged, ScatterFailure>)
    requires
        s.finishes(r),
    ensures
        s.failure matches Some(failure) ==> r is Err && r->Err_0@ == failure,
        s.failure is None && s.merge == MergePolicy::Concat ==> {
            let rows = s.all_messages().filter(|m: wire::BackendView| m is DataRow);
            &&& r is Ok
            &&& r->Ok_0@.rows == rows.len()
            &&& r->Ok_0@.messages.drop_last().filter(|m: wire::BackendView| m is DataRow) == rows
            &&& r->Ok_0@.messages.last() == (wire::BackendView::CommandComplete {
                tag: s.tag + " "@ + text::decimal(rows.len()),
            })
            &&& r->Ok_0@.session_status == s.session_status
        },
        s.failure is None && s.merge == MergePolicy::Sum && summable(s.all_messages()) ==> {
            let out = r->Ok_0@.messages;
            let n = out.len() as int;
            &&& r is Ok
            &&& r->Ok_0@.rows == 1
            &&& n >= 2
            &&& only_descriptions(out.take(n - 2)).len() == n - 2 <= 1
            &&& out[n - 1] == (wire::BackendView::CommandComplete { tag: s.tag + " 1"@ })
            &&& out[n - 2] matches wire::BackendView::DataRow { row }
            &&& row.field_count == 1
            &&& intercept::decode_values(row.data, 1) matches Some(values)
            &&& values[0] matches Some(bytes)
            &&& text::parse_int(decode_utf8(bytes)) == Some(column_total(s.all_messages()))
            &&& r->Ok_0@.session_status == s.session_status
        },
        s.failure is None && s.merge == MergePolicy::Sum && !summable(s.all_messages()) ==> {
            &&& r is Err
            &&& wire::field_value(r->Err_0@.error, 0x43) == "0A000"@
            &&& !r->Err_0@.session_lease_broken
            &&& r->Err_0@.session_status == s.session_status
        },
{
    let messages = s.all_messages();
    law_concat_merged(messages, s.tag);
    law_sum_merged(messages, s.tag);
    law_scatter_errors(Seq::empty());
    if s.failure is None && s.merge == MergePolicy::Sum && summable(messages) {
        let out = r->Ok_0@.messages;
        let n: int = out.len() as int;
        let described = messages.filter(|m: wire::BackendView| m is RowDescription);
        reveal(Seq::filter);
        if described.len() > 0 {
            let is_description = |m: wire::BackendView| m is RowDescription;
            messages.lemma_filter_pred(is_description, 0);
            assert(out.take(n - 2) == seq![described[0]]);
            assert(seq![described[0]].drop_last() =~= Seq::<wire::BackendView>::empty());
            assert(only_descriptions(Seq::<wire::BackendView>::empty()).len() == 0);
            assert(seq![described[0]].last() is RowDescription);
            assert(only_descriptions(seq![described[0]]).len() == 1);
        } else {
            assert(out.take(n - 2).len() == 0);
        }
    }
}

/// A scatter starts with a place for every leg of the request and nothing in
/// it, without a failure, and with the merge and the tag of the request.
pub proof fn law_scatter_starts(request: RequestView, i: int)
    ensures
        ({
            let s = GatherView::started(request);
            &&& s.legs.len() == request.legs.len()
            &&& 0 <= i < request.legs.len() ==> s.legs[i].len() == 0
            &&& s.merge == request.merge && s.tag == request.tag
            &&& s.failure is None && s.session_status is None
        }),
{
}

/// A shard that cannot be reached fails its leg, with the reason in the error.
pub proof fn law_shard_not_reached(error: Seq<char>)
    ensures
        ({
            let r = LegResultView::not_reached(error);
            &&& r.messages.len() == 0 && !r.dirty
            &&& r.error matches Some(e)
            &&& wire::field_value(e, 0x53) == "ERROR"@
            &&& wire::field_value(e, 0x43) == "08006"@
            &&& wire::field_value(e, 0x4d) == "connect to shard failed: "@ + error
        }),
{
    wire::law_error_fields("ERROR"@, "08006"@, "connect to shard failed: "@ + error);
}

} // verus!
