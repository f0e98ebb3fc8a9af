//! What holds of every session, whatever arrives.

use vstd::prelude::*;

use crate::intercept;
use crate::intercept::{RetryDecision, RowAction};
use crate::scatter;
use crate::session::cycle;
use crate::session::model;
use crate::session::model::LossCause;
use crate::session::registry;
use crate::time::Nanos;
use crate::wire;
use crate::wire::{FrontendKind, TransactionStatus};

verus! {

/// Everything that can happen to a session.
pub enum EventView {
    Downstream(model::DownstreamEventView),
    Query {
        message: wire::FrontendView,
        asked: intercept::QueryView,
        action: intercept::ActionView,
    },
    Merged { tag: Seq<char>, merged: scatter::MergedView },
    ScatterFailed(scatter::FailureView),
    Attached {
        message: wire::FrontendView,
        endpoint: Seq<char>,
        status: TransactionStatus,
        dirtied: bool,
    },
    AttachFailed(Seq<char>),
    Frontend { message: wire::FrontendView, action: intercept::ActionView },
    Forwarded,
    ForwardFailed,
    Lost { cause: LossCause, decision: RetryDecision },
    Upstream(wire::UpstreamEventView),
    Row { row: intercept::RowEditView, action: RowAction },
    Backend { message: wire::BackendView, action: intercept::ActionView },
    Delivered(model::DeliveryView),
    Shutdown,
}

/// What a session does about an event.
#[verifier::opaque]
pub open spec fn step(s: model::PumpView, e: EventView, now: Nanos) -> (
    model::PumpView,
    model::StepView,
) {
    match e {
        EventView::Downstream(event) => s.downstream_step(event, now),
        EventView::Query { message, asked, action } => s.query_step(message, asked, action, now),
        EventView::Merged { tag, merged } => s.scatter_merged(tag, merged, now),
        EventView::ScatterFailed(failure) => s.scatter_failed(failure, now),
        EventView::Attached { message, endpoint, status, dirtied } => s.attach_step(
            message,
            endpoint,
            status,
            dirtied,
        ),
        EventView::AttachFailed(message) => s.attach_failed_step(message),
        EventView::Frontend { message, action } => s.frontend_step(message, action),
        EventView::Forwarded => s.forwarded_step(),
        EventView::ForwardFailed => s.loss_step(LossCause::Send, now),
        EventView::Lost { cause, decision } => s.lost_step(cause, decision, now),
        EventView::Upstream(event) => s.upstream_step(event, now),
        EventView::Row { row, action } => s.row_step(row, action),
        EventView::Backend { message, action } => s.backend_step(message, action, now),
        EventView::Delivered(delivery) => s.delivered_step(delivery),
        EventView::Shutdown => s.shutdown_step(),
    }
}

/// The effects that come with a step.
pub open spec fn effects(step: model::StepView) -> Seq<model::EffectView> {
    match step {
        model::StepView::Wait { effects } => effects,
        model::StepView::End { effects, .. } => effects,
        _ => Seq::empty(),
    }
}

/// Whether the step has the effect.
pub open spec fn does(step: model::StepView, effect: model::EffectView) -> bool {
    effects(step).contains(effect)
}

/// Whether a query cycle is under way that hooks follow.
pub open spec fn follows_cycle(s: model::PumpView) -> bool {
    s.hooks matches Some(h) && h.cycle.active
}

/// Whether the step reports an ended cycle: at once, or with the delivery of
/// the `ReadyForQuery` that ends it.
pub open spec fn reports(st: model::StepView) -> bool {
    ||| effects(st).len() > 0 && effects(st).last() is CycleEnd
    ||| (st matches model::StepView::Deliver { delivery, .. } && delivery.report is Some)
}

/// What every step but delivering a message keeps: a dirty connection stays
/// dirty, none is returned to its pool, an owed response stays owed as long as
/// there is a connection, and a cycle that ends is reported.
spec fn keeps(s: model::PumpView, t: model::PumpView, st: model::StepView) -> bool {
    &&& s.dirty ==> t.dirty
    &&& s.hygiene.awaiting_response && !t.hygiene.awaiting_response ==> t.lease is None
    &&& forall|dirty: bool| !does(st, model::EffectView::Release { dirty })
    &&& follows_cycle(s) && !follows_cycle(t) ==> reports(st)
}

/// The client message that an event brings towards the server.
pub open spec fn carried(e: EventView) -> Option<wire::FrontendView> {
    match e {
        EventView::Downstream(model::DownstreamEventView::Message(m)) => Some(m),
        EventView::Query { message, asked, .. } => Some(
            cycle::rewritten(message, asked.replacement()),
        ),
        EventView::Attached { message, .. } => Some(message),
        _ => None,
    }
}

/// Whether the statements of `t` are those of `s`, or those of `s` with the
/// one that `m` prepares or closes recorded.
pub open spec fn records(s: model::PumpView, m: wire::FrontendView, t: model::PumpView) -> bool {
    ||| t.registry == s.registry
    ||| (m is Parse || m is Close) && t.registry == s.statement_recorded(m).registry
}

proof fn lemma_attached(s: model::PumpView, m: wire::FrontendView)
    ensures
        ({
            let (t, st) = s.attached_step(m);
            &&& keeps(s, t, st)
            &&& t.overrides == s.overrides
            &&& records(s, m, t)
        }),
{
}

proof fn lemma_enroll(s: model::PumpView, m: wire::FrontendView, hint: Option<Seq<char>>)
    ensures
        ({
            let (t, st) = s.enroll_step(m, hint);
            &&& keeps(s, t, st)
            &&& t.overrides == s.overrides
            &&& records(s, m, t)
        }),
{
    if s.lease is Some {
        lemma_attached(s, m);
    }
}

proof fn lemma_downstream(s: model::PumpView, event: model::DownstreamEventView, now: Nanos)
    ensures
        ({
            let (t, st) = s.downstream_step(event, now);
            &&& keeps(s, t, st)
            &&& t.overrides == s.overrides
            &&& match event {
                model::DownstreamEventView::Message(m) => records(s, m, t),
                _ => t.registry == s.registry,
            }
        }),
{
    match event {
        model::DownstreamEventView::Message(m) => {
            lemma_enroll(
                model::PumpView {
                    extended: cycle::input_of(m)->0.kind is Extended,
                    ..s
                },
                m,
                Some(cycle::input_of(m)->0.sql),
            );
            lemma_enroll(s, m, None);
        },
        _ => {},
    }
}

proof fn lemma_scatter_failed(s: model::PumpView, failure: scatter::FailureView, now: Nanos)
    ensures
        ({
            let (t, st) = s.scatter_failed(failure, now);
            &&& keeps(s, t, st)
            &&& t.overrides == s.overrides
            &&& t.registry == s.registry
        }),
{
}

proof fn lemma_merged(s: model::PumpView, tag: Seq<char>, merged: scatter::MergedView, now: Nanos)
    ensures
        ({
            let (t, st) = s.scatter_merged(tag, merged, now);
            &&& keeps(s, t, st)
            &&& t.overrides == s.overrides
            &&& t.registry == s.registry
        }),
{
}

proof fn lemma_query(
    s: model::PumpView,
    m: wire::FrontendView,
    asked: intercept::QueryView,
    action: intercept::ActionView,
    now: Nanos,
)
    ensures
        ({
            let (t, st) = s.query_step(m, asked, action, now);
            &&& keeps(s, t, st)
            &&& t.overrides == s.overrides
            &&& records(s, cycle::rewritten(m, asked.replacement()), t)
        }),
{
    let input = cycle::input_of(m)->0;
    let sent = cycle::rewritten(m, asked.replacement());
    let begun = s.with_cycle(cycle::fresh_cycle(cycle::sql_of(sent), input.kind, now));
    match action {
        intercept::ActionView::Forward => {
            lemma_enroll(begun, sent, Some(input.sql));
        },
        _ => {},
    }
}

proof fn lemma_lost(s: model::PumpView, cause: LossCause, decision: RetryDecision, now: Nanos)
    ensures
        ({
            let (t, st) = s.lost_step(cause, decision, now);
            &&& keeps(s, t, st)
            &&& t.overrides == s.overrides
            &&& t.registry == s.registry
        }),
{
}

proof fn lemma_observed(s: model::PumpView, m: wire::BackendView)
    ensures
        ({
            let (t, st) = s.observe_step(m);
            &&& keeps(s, t, st)
            &&& t.registry == s.registry
            &&& t.overrides == s.overrides
        }),
{
}

proof fn lemma_frontend(s: model::PumpView, m: wire::FrontendView, action: intercept::ActionView)
    ensures
        ({
            let (t, st) = s.frontend_step(m, action);
            &&& keeps(s, t, st)
            &&& t.registry == s.registry
            &&& t.overrides == s.overrides
        }),
{
}

proof fn lemma_backend(
    s: model::PumpView,
    m: wire::BackendView,
    action: intercept::ActionView,
    now: Nanos,
)
    ensures
        ({
            let (t, st) = s.backend_step(m, action, now);
            &&& keeps(s, t, st)
            &&& t.registry == s.registry
            &&& t.overrides == s.overrides
        }),
{
}

/// The parameters of a session once the server has reported a new value.
pub open spec fn reported(
    overrides: Map<Seq<char>, Seq<char>>,
    event: wire::UpstreamEventView,
) -> Map<Seq<char>, Seq<char>> {
    match event {
        wire::UpstreamEventView::Message(wire::BackendView::ParameterStatus { name, value }) => {
            overrides.insert(name, value)
        },
        _ => overrides,
    }
}

proof fn lemma_upstream(s: model::PumpView, event: wire::UpstreamEventView, now: Nanos)
    ensures
        ({
            let (t, st) = s.upstream_step(event, now);
            &&& t.registry == s.registry
            &&& t.overrides == reported(s.overrides, event)
            &&& follows_cycle(s) && !follows_cycle(t) ==> reports(st)
            &&& s.dirty ==> t.dirty
            &&& forall|dirty: bool| !does(st, model::EffectView::Release { dirty })
            &&& !(event matches wire::UpstreamEventView::Message(
                wire::BackendView::ReadyForQuery { .. },
            )) ==> keeps(s, t, st)
        }),
{
    match event {
        wire::UpstreamEventView::Closed => {
            lemma_lost(s, LossCause::Closed, RetryDecision::Relink, now);
        },
        wire::UpstreamEventView::Broken(_) => {},
        wire::UpstreamEventView::Message(m) => {
            lemma_observed(s.noticed(m), m);
        },
    }
}

/// What every event keeps, all at once.
proof fn lemma_every_event(s: model::PumpView, e: EventView, now: Nanos)
    ensures
        ({
            let (t, st) = step(s, e, now);
            &&& !(e is Delivered) ==> {
                &&& s.dirty ==> t.dirty
                &&& forall|dirty: bool| !does(st, model::EffectView::Release { dirty })
            }
            &&& !(e matches EventView::Upstream(
                wire::UpstreamEventView::Message(wire::BackendView::ReadyForQuery { .. }),
            )) && s.hygiene.awaiting_response && !t.hygiene.awaiting_response ==> t.lease is None
            &&& follows_cycle(s) && !follows_cycle(t) ==> reports(st)
            &&& match carried(e) {
                Some(m) => records(s, m, t),
                None => t.registry == s.registry,
            }
            &&& match e {
                EventView::Upstream(event) => t.overrides == reported(s.overrides, event),
                _ => t.overrides == s.overrides,
            }
        }),
{
    reveal(step);
    match e {
        EventView::Downstream(event) => {
            lemma_downstream(s, event, now);
        },
        EventView::Query { message, asked, action } => {
            lemma_query(s, message, asked, action, now);
        },
        EventView::Merged { tag, merged } => {
            lemma_merged(s, tag, merged, now);
        },
        EventView::ScatterFailed(failure) => {
            lemma_scatter_failed(s, failure, now);
        },
        EventView::Attached { message, endpoint, status, dirtied } => {
            lemma_attached(
                model::PumpView {
                    lease: Some(status),
                    endpoint: Some(endpoint),
                    dirty: s.dirty || dirtied,
                    ..s
                },
                message,
            );
        },
        EventView::Frontend { message, action } => {
            lemma_frontend(s, message, action);
        },
        EventView::Backend { message, action } => {
            lemma_backend(s, message, action, now);
        },
        EventView::ForwardFailed => {
            lemma_lost(s, LossCause::Send, RetryDecision::Relink, now);
        },
        EventView::Lost { cause, decision } => {
            lemma_lost(s, cause, decision, now);
        },
        EventView::Upstream(event) => {
            lemma_upstream(s, event, now);
        },
        _ => {},
    }
}

/// The mark that a connection carries session state is cleared only together
/// with returning that connection to its pool, and the return says that the
/// connection has to be reset.
pub proof fn law_dirt_cleared_only_by_release(s: model::PumpView, e: EventView, now: Nanos)
    ensures
        ({
            let (t, st) = step(s, e, now);
            s.dirty && !t.dirty ==> {
                &&& does(st, model::EffectView::Release { dirty: true })
                &&& t.lease is None
            }
        }),
{
    lemma_every_event(s, e, now);
    match e {
        EventView::Delivered(delivery) => {
            reveal(step);
            let (t, st) = step(s, e, now);
            if s.dirty && !t.dirty {
                assert(effects(st).last() == (model::EffectView::Release { dirty: true }));
            }
        },
        _ => {},
    }
}

/// A connection is returned to its pool only in transaction mode, when
/// `ReadyForQuery` has been delivered and the server has said that no
/// transaction is open; and whenever that is so (and the session is not
/// draining) it is returned.
pub proof fn law_release_exactly_when_idle(s: model::PumpView, e: EventView, now: Nanos)
    ensures
        ({
            let (t, st) = step(s, e, now);
            (exists|dirty: bool| does(st, model::EffectView::Release { dirty })) <==> {
                &&& e matches EventView::Delivered(delivery)
                &&& delivery.ready
                &&& s.transaction_mode
                &&& s.lease == Some(TransactionStatus::Idle)
                &&& !s.draining
            }
        }),
{
    lemma_every_event(s, e, now);
    match e {
        EventView::Delivered(delivery) => {
            reveal(step);
            let (t, st) = step(s, e, now);
            if delivery.ready && s.transaction_mode && s.lease == Some(TransactionStatus::Idle)
                && !s.draining {
                assert(effects(st).last() == (model::EffectView::Release { dirty: s.dirty }));
                assert(does(st, model::EffectView::Release { dirty: s.dirty }));
            }
        },
        _ => {},
    }
}

/// A session's statements change only through the client's own `Parse` and
/// `Close` messages, each of which records just what it says: losing a
/// connection, giving it back, and everything the server says leave them in
/// place for the next attach. The parameters a session has set change only
/// when the server reports a new value, and then to just that value.
pub proof fn law_session_state_survives(s: model::PumpView, e: EventView, now: Nanos)
    ensures
        ({
            let (t, _) = step(s, e, now);
            &&& match carried(e) {
                Some(m) => records(s, m, t),
                None => t.registry == s.registry,
            }
            &&& match e {
                EventView::Upstream(event) => t.overrides == reported(s.overrides, event),
                _ => t.overrides == s.overrides,
            }
        }),
{
    lemma_every_event(s, e, now);
}

/// No cycle that hooks follow ends unreported: the step that ends it reports
/// it, or hands the report to the delivery of its `ReadyForQuery`, which
/// reports it once that message has gone to the client.
pub proof fn law_cycle_reported(
    s: model::PumpView,
    e: EventView,
    delivery: model::DeliveryView,
    now: Nanos,
)
    ensures
        ({
            let (t, st) = step(s, e, now);
            follows_cycle(s) && !follows_cycle(t) ==> reports(st)
        }),
        delivery.report matches Some(report) ==> does(
            s.delivered_step(delivery).1,
            model::EffectView::CycleEnd(report),
        ),
{
    lemma_every_event(s, e, now);
    match delivery.report {
        Some(report) => {
            assert(effects(s.delivered_step(delivery).1)[0] == model::EffectView::CycleEnd(report));
        },
        None => {},
    }
}

/// A statement whose `Parse` is lost with its connection before anything else
/// of its cycle went upstream is not lost to the session: the client sees no
/// error, and the statement is among those that the next attach prepares.
pub proof fn law_lost_parse_is_kept(
    s: model::PumpView,
    name: Seq<char>,
    sql: Seq<char>,
    type_oids: Seq<u32>,
    now: Nanos,
)
    requires
        name.len() > 0,
        s.lease is Some,
        !s.hygiene.awaiting_response,
        s.fed == 0,
    ensures
        ({
            let m = wire::FrontendView::Parse { name: Some(name), sql, type_oids };
            let sending = s.statement_recorded(m).forward_step(m).0;
            let (t, st) = sending.lost_step(LossCause::Send, RetryDecision::Relink, now);
            &&& st == model::wait(seq![model::EffectView::Destroy("send failed"@)])
            &&& t.lease is None
            &&& !t.swallow || s.swallow
            &&& t.registry.contains_pair(name, registry::StatementView { sql, type_oids })
        }),
{
}

/// Looking for a connection never records the statement it is looked for:
/// the registry that is replayed on the new connection does not hold the
/// statement that is about to be forwarded. It is recorded once the
/// connection is there.
pub proof fn law_statement_recorded_after_attach(
    s: model::PumpView,
    name: Seq<char>,
    sql: Seq<char>,
    type_oids: Seq<u32>,
    hint: Option<Seq<char>>,
    endpoint: Seq<char>,
    status: TransactionStatus,
    dirtied: bool,
)
    requires
        name.len() > 0,
        s.lease is None,
        !s.registry.contains_key(name),
    ensures
        ({
            let m = wire::FrontendView::Parse { name: Some(name), sql, type_oids };
            let (looking, st) = s.enroll_step(m, hint);
            let (attached, _) = looking.attach_step(m, endpoint, status, dirtied);
            &&& st is Attach
            &&& !looking.registry.contains_key(name)
            &&& looking.registry == s.registry
            &&& attached.registry == s.registry.insert(
                name,
                registry::StatementView { sql, type_oids },
            )
            &&& attached.dirty
        }),
{
}

/// A `Parse` of a registered name with the same SQL is answered locally; one
/// with other SQL is refused with SQLSTATE 42P05 and the session recovers at
/// `Sync`. Neither reaches the server, and neither changes the registry.
pub proof fn law_known_statement(
    s: model::PumpView,
    name: Seq<char>,
    sql: Seq<char>,
    type_oids: Seq<u32>,
    hint: Option<Seq<char>>,
)
    requires
        name.len() > 0,
        s.registry.contains_key(name),
    ensures
        ({
            let m = wire::FrontendView::Parse { name: Some(name), sql, type_oids };
            let (t, st) = s.enroll_step(m, hint);
            &&& t.registry == s.registry
            &&& s.registry[name].sql == sql ==> st == model::wait(
                seq![model::EffectView::Send(wire::BackendView::ParseComplete)],
            ) && !(t.swallow && !s.swallow)
            &&& s.registry[name].sql != sql ==> {
                &&& st == model::wait(seq![model::failed(model::duplicate_error(name))])
                &&& wire::field_value(model::duplicate_error(name), 0x43) == "42P05"@
                &&& t.swallow
            }
        }),
{
    wire::law_error_fields(
        "ERROR"@,
        "42P05"@,
        "prepared statement \""@ + name + "\" already exists (pgferry)"@,
    );
}

/// A denied query is not forwarded and touches no connection. In the simple
/// protocol the client gets the error, then `ReadyForQuery`, and the cycle is
/// reported with the error; in the extended protocol it gets the error and
/// the session recovers at `Sync`.
pub proof fn law_denied_query(
    s: model::PumpView,
    message: wire::FrontendView,
    asked: intercept::QueryView,
    error: Seq<(u8, Seq<char>)>,
    now: Nanos,
)
    requires
        s.hooks is Some,
        cycle::input_of(message) is Some,
    ensures
        ({
            let (t, st) = s.query_step(message, asked, intercept::ActionView::Deny(error), now);
            let input = cycle::input_of(message)->0;
            let report = intercept::ReportView {
                sql: cycle::sql_of(cycle::rewritten(message, asked.replacement())),
                kind: input.kind,
                tag: None,
                rows: 0,
                rows_dropped: 0,
                error: Some(intercept::cycle_error_of(error)),
                latency: 0,
            };
            &&& t.lease == s.lease
            &&& t.hygiene == s.hygiene
            &&& t.registry == s.registry
            &&& t.frontend == s.frontend
            &&& message is Query ==> st == model::wait(
                seq![
                    model::failed(error),
                    model::ready(s.lease_status()),
                    model::EffectView::CycleEnd(report),
                ],
            ) && t.swallow == s.swallow
            &&& message is Parse ==> st == model::wait(seq![model::failed(error)]) && t.swallow
        }),
{
    let (t, st) = s.query_step(message, asked, intercept::ActionView::Deny(error), now);
    if message is Query {
        assert(effects(st) =~= seq![
            model::failed(error),
            model::ready(s.lease_status()),
            effects(st)[2],
        ]);
    }
}

/// The state and the effects once these client messages have arrived, each
/// taken to its end without a hook or the server having a say.
pub open spec fn feed(s: model::PumpView, messages: Seq<wire::FrontendView>, now: Nanos) -> (
    model::PumpView,
    Seq<model::EffectView>,
)
    decreases messages.len(),
{
    if messages.len() == 0 {
        (s, Seq::empty())
    } else {
        let (t, done) = feed(s, messages.drop_last(), now);
        let (u, st) = t.downstream_step(
            model::DownstreamEventView::Message(messages.last()),
            now,
        );
        (u, done + effects(st))
    }
}

/// Recovery from an injected error: whatever the client pipelined before its
/// `Sync` is swallowed without an answer, and the `Sync` is answered with
/// exactly one `ReadyForQuery`. The session is then as it was, out of
/// recovery.
pub proof fn law_recovery_until_sync(
    s: model::PumpView,
    pipelined: Seq<wire::FrontendView>,
    now: Nanos,
)
    requires
        s.swallow,
        forall|i: int|
            0 <= i < pipelined.len() ==> !(#[trigger] pipelined[i] is Sync) && !(pipelined[i]
                is Terminate),
    ensures
        feed(s, pipelined, now) == (s, Seq::<model::EffectView>::empty()),
        ({
            let (t, done) = feed(s, pipelined.push(wire::FrontendView::Sync), now);
            &&& !t.swallow
            &&& t.lease == s.lease
            &&& t.registry == s.registry
            &&& t.hygiene == s.hygiene
            &&& done.len() > 0
            &&& done[0] == model::ready(s.lease_status())
            &&& s.hooks is None ==> done.len() == 1
            &&& s.hooks is Some ==> done.len() == 2 && done[1] is CycleEnd
        }),
    decreases pipelined.len(),
{
    if pipelined.len() > 0 {
        let init = pipelined.drop_last();
        assert forall|i: int| 0 <= i < init.len() implies !(#[trigger] init[i] is Sync) && !(init[i]
            is Terminate) by {
            assert(init[i] == pipelined[i]);
        }
        law_recovery_until_sync(s, init, now);
        assert(!(pipelined[pipelined.len() - 1] is Sync));
        assert(feed(s, pipelined, now).1 =~= Seq::<model::EffectView>::empty());
    }
    let whole = pipelined.push(wire::FrontendView::Sync);
    assert(whole.drop_last() =~= pipelined);
    assert(whole.last() == wire::FrontendView::Sync);
    assert(feed(s, pipelined, now).0 == s);
    let (u, st) = s.downstream_step(
        model::DownstreamEventView::Message(wire::FrontendView::Sync),
        now,
    );
    assert(feed(s, whole, now).1 =~= effects(st));
}

/// A lost connection is never followed by sending anything upstream again:
/// the session either ends or goes on detached, and an interrupted cycle is
/// answered with SQLSTATE 08006.
pub proof fn law_queries_never_replayed(
    s: model::PumpView,
    cause: LossCause,
    decision: RetryDecision,
    now: Nanos,
)
    ensures
        ({
            let (t, st) = s.lost_step(cause, decision, now);
            &&& st is Wait || st is End
            &&& decision == RetryDecision::Relink ==> {
                &&& st is Wait
                &&& t.lease is None
                &&& t.endpoint is None
                &&& !t.hygiene.awaiting_response
                &&& t.registry == s.registry
                &&& t.overrides == s.overrides
                &&& s.hygiene.awaiting_response ==> does(st, model::failed(model::lost_error()))
            }
            &&& decision == RetryDecision::Close ==> st->end is UpstreamBroken && t == s
            &&& wire::field_value(model::lost_error(), 0x43) == "08006"@
        }),
{
    wire::law_error_fields("ERROR"@, "08006"@, "upstream connection lost"@);
    let (t, st) = s.lost_step(cause, decision, now);
    if decision == RetryDecision::Relink && s.hygiene.awaiting_response {
        let at = if s.lease is Some {
            1int
        } else {
            0int
        };
        assert(effects(st)[at] == model::failed(model::lost_error()));
    }
}

/// Without hooks the proxy is transparent: what the client sends reaches the
/// attached server as it is, and what the server sends reaches the client as
/// it is. The exceptions are a `Parse` of a statement that the session
/// already has, and recovery from an error of the proxy's own.
pub proof fn law_transparent(
    s: model::PumpView,
    m: wire::FrontendView,
    b: wire::BackendView,
    now: Nanos,
)
    requires
        s.hooks is None,
        s.lease is Some,
        !s.swallow,
        !(m is Terminate),
        s.known_statement(m) is None,
    ensures
        s.downstream_step(model::DownstreamEventView::Message(m), now).1 == (
        model::StepView::Forward { message: m, flush: wire::elicits_response(m.kind()) }),
        s.upstream_step(wire::UpstreamEventView::Message(b), now).1 == (model::StepView::Deliver {
            message: b,
            delivery: model::DeliveryView { ready: b is ReadyForQuery, report: None },
        }),
{
}

/// A row that the row hook keeps without editing is delivered byte for byte.
pub proof fn law_unedited_row_delivered(s: model::PumpView, row: intercept::RowEditView)
    requires
        !row.modified,
    ensures
        s.row_step(row, RowAction::Keep).1 == (model::StepView::Backend {
            message: wire::BackendView::DataRow { row: row.row },
        }),
{
}

/// A dropped row is not delivered; it is counted as dropped and not as sent.
pub proof fn law_dropped_row(s: model::PumpView, row: intercept::RowEditView)
    requires
        s.hooks is Some,
        s.has_room(),
    ensures
        ({
            let (t, st) = s.row_step(row, RowAction::Drop);
            &&& st == model::wait(model::nothing())
            &&& t.cycle().rows == s.cycle().rows
            &&& t.cycle().dropped_total == s.cycle().dropped_total + 1
        }),
{
}

/// Graceful shutdown: an idle session ends at once. A busy one goes on, keeps
/// everything else, and ends as soon as the current cycle's `ReadyForQuery`
/// has been delivered.
pub proof fn law_shutdown_at_cycle_boundary(
    s: model::PumpView,
    delivery: model::DeliveryView,
)
    ensures
        ({
            let busy = s.hygiene.awaiting_response || s.hygiene.copy
                != crate::pool::CopyCleanup::Inactive;
            let (t, st) = s.shutdown_step();
            &&& !busy ==> st == model::gone()
            &&& busy ==> st == model::wait(model::nothing()) && t == (model::PumpView {
                draining: true,
                ..s
            })
        }),
        s.draining && delivery.ready ==> s.delivered_step(delivery).1 is End,
        !delivery.ready ==> s.delivered_step(delivery).1 is Wait,
{
}

/// Once a `Query`, `Sync` or `Flush` has gone upstream the server owes a
/// response, until it sends `ReadyForQuery` or the connection is given up.
pub proof fn law_response_owed(s: model::PumpView, e: EventView, m: wire::FrontendView, now: Nanos)
    ensures
        m.kind() == FrontendKind::Query || m.kind() == FrontendKind::Sync || m.kind()
            == FrontendKind::Flush ==> s.forward_step(m).0.hygiene.awaiting_response,
        ({
            let (t, _) = step(s, e, now);
            s.hygiene.awaiting_response && !t.hygiene.awaiting_response ==> {
                ||| t.lease is None
                ||| e matches EventView::Upstream(
                    wire::UpstreamEventView::Message(wire::BackendView::ReadyForQuery { .. }),
                )
            }
        }),
{
    lemma_every_event(s, e, now);
}

/// A query that a hook answers with messages of its own reaches no server: the
/// client gets the messages and then `ReadyForQuery`. In the simple protocol
/// the cycle is reported with the rows, the last command tag and the last error
/// among them; in the extended protocol the session then recovers at `Sync`.
pub proof fn law_local_answer(
    s: model::PumpView,
    message: wire::FrontendView,
    asked: intercept::QueryView,
    messages: Seq<wire::BackendView>,
    now: Nanos,
)
    requires
        s.hooks is Some,
        cycle::input_of(message) is Some,
        model::count_rows(messages) <= u64::MAX,
    ensures
        ({
            let (t, st) = s.query_step(message, asked, intercept::ActionView::Reply(messages), now);
            let report = intercept::ReportView {
                sql: cycle::sql_of(cycle::rewritten(message, asked.replacement())),
                kind: cycle::input_of(message)->0.kind,
                tag: model::last_tag(messages),
                rows: model::count_rows(messages) as u64,
                rows_dropped: 0,
                error: model::last_error(messages),
                latency: 0,
            };
            &&& t.lease == s.lease
            &&& t.hygiene == s.hygiene
            &&& t.registry == s.registry
            &&& t.frontend == s.frontend
            &&& message is Query ==> st == model::wait(
                model::sends(messages) + seq![
                    model::ready(s.lease_status()),
                    model::EffectView::CycleEnd(report),
                ],
            ) && t.swallow == s.swallow
            &&& message is Parse ==> st == model::wait(
                model::sends(messages).push(model::ready(s.lease_status())),
            ) && t.swallow
        }),
{
    let (t, st) = s.query_step(message, asked, intercept::ActionView::Reply(messages), now);
    if message is Query {
        assert(effects(st) =~= model::sends(messages) + seq![
            model::ready(s.lease_status()),
            effects(st).last(),
        ]);
    }
}

/// How many of the effects send the client a row.
pub open spec fn rows_among(effects: Seq<model::EffectView>) -> nat
    decreases effects.len(),
{
    if effects.len() == 0 {
        0
    } else {
        rows_among(effects.drop_last()) + if effects.last() matches model::EffectView::Send(m) && m
            is DataRow {
            1nat
        } else {
            0nat
        }
    }
}

/// How many rows the step sends the client.
pub open spec fn rows_sent(st: model::StepView) -> nat {
    match st {
        model::StepView::Deliver { message, .. } => if message is DataRow {
            1
        } else {
            0
        },
        _ => rows_among(effects(st)),
    }
}

/// Messages that are sent on bring the client the rows among them.
proof fn lemma_rows_among_sends(messages: Seq<wire::BackendView>)
    ensures
        rows_among(model::sends(messages)) == model::count_rows(messages),
    decreases messages.len(),
{
    if messages.len() > 0 {
        lemma_rows_among_sends(messages.drop_last());
        assert(model::sends(messages).drop_last() =~= model::sends(messages.drop_last()));
    }
}

/// Effects none of which sends a row send no rows.
proof fn lemma_no_rows_among(effects: Seq<model::EffectView>)
    requires
        forall|i: int|
            0 <= i < effects.len() ==> !(#[trigger] effects[i] matches model::EffectView::Send(m)
                && m is DataRow),
    ensures
        rows_among(effects) == 0,
    decreases effects.len(),
{
    if effects.len() > 0 {
        assert(!(effects[effects.len() - 1] matches model::EffectView::Send(m) && m is DataRow));
        assert forall|i: int| 0 <= i < effects.drop_last().len() implies !(
        #[trigger] effects.drop_last()[i] matches model::EffectView::Send(m) && m is DataRow) by {
            assert(effects.drop_last()[i] == effects[i]);
        }
        lemma_no_rows_among(effects.drop_last());
    }
}

/// Whether the step counts just the rows that it sends.
spec fn counts(s: model::PumpView, t: model::PumpView, st: model::StepView) -> bool {
    t.cycle().rows == s.cycle().rows + rows_sent(st)
}

proof fn lemma_enroll_counts(s: model::PumpView, m: wire::FrontendView, hint: Option<Seq<char>>)
    requires
        s.hooks is Some,
    ensures
        counts(s, s.enroll_step(m, hint).0, s.enroll_step(m, hint).1),
{
    lemma_no_rows_among(effects(s.enroll_step(m, hint).1));
}

proof fn lemma_downstream_counts(s: model::PumpView, event: model::DownstreamEventView, now: Nanos)
    requires
        s.hooks is Some,
    ensures
        counts(s, s.downstream_step(event, now).0, s.downstream_step(event, now).1),
{
    match event {
        model::DownstreamEventView::Message(m) => {
            lemma_enroll_counts(s, m, None);
        },
        _ => {},
    }
    lemma_no_rows_among(effects(s.downstream_step(event, now).1));
}

proof fn lemma_refused_counts(
    s: model::PumpView,
    extended: bool,
    error: Seq<(u8, Seq<char>)>,
    now: Nanos,
)
    requires
        s.hooks is Some,
    ensures
        counts(s, s.refused(extended, error, now).0, s.refused(extended, error, now).1),
{
    lemma_no_rows_among(effects(s.refused(extended, error, now).1));
}

proof fn lemma_query_counts(
    s: model::PumpView,
    m: wire::FrontendView,
    asked: intercept::QueryView,
    action: intercept::ActionView,
    now: Nanos,
)
    requires
        s.hooks is Some,
        !(action is Close),
        action matches intercept::ActionView::Reply(messages) ==> model::count_rows(messages)
            <= u64::MAX,
    ensures
        ({
            let (t, st) = s.query_step(m, asked, action, now);
            t.cycle().rows == rows_sent(st)
        }),
{
    let input = cycle::input_of(m)->0;
    let sent = cycle::rewritten(m, asked.replacement());
    let begun = s.with_cycle(cycle::fresh_cycle(cycle::sql_of(sent), input.kind, now));
    let extended = input.kind is Extended;
    match action {
        intercept::ActionView::Forward => {
            lemma_enroll_counts(begun, sent, Some(input.sql));
        },
        intercept::ActionView::Deny(error) => {
            lemma_refused_counts(begun, extended, error, now);
        },
        intercept::ActionView::Scatter(_) => {
            lemma_refused_counts(begun, false, model::scatter_protocol_error(), now);
            lemma_refused_counts(begun, false, model::scatter_transaction_error(), now);
        },
        intercept::ActionView::Reply(messages) => {
            lemma_rows_among_sends(messages);
            let all = effects(s.query_step(m, asked, action, now).1);
            if !extended {
                assert(all.last() is CycleEnd);
                assert(!(all.drop_last().last() matches model::EffectView::Send(b) && b
                    is DataRow));
                assert(all.drop_last().drop_last() =~= model::sends(messages));
                assert(rows_among(all) == rows_among(all.drop_last()));
                assert(rows_among(all.drop_last()) == model::count_rows(messages));
            } else {
                assert(all.drop_last() =~= model::sends(messages));
            }
        },
        intercept::ActionView::Close => {},
    }
}

proof fn lemma_lost_counts(
    s: model::PumpView,
    cause: LossCause,
    decision: RetryDecision,
    now: Nanos,
)
    requires
        s.hooks is Some,
    ensures
        counts(s, s.lost_step(cause, decision, now).0, s.lost_step(cause, decision, now).1),
{
    lemma_no_rows_among(effects(s.lost_step(cause, decision, now).1));
}

proof fn lemma_scatter_failed_counts(s: model::PumpView, failure: scatter::FailureView, now: Nanos)
    requires
        s.hooks is Some,
    ensures
        counts(s, s.scatter_failed(failure, now).0, s.scatter_failed(failure, now).1),
{
    lemma_no_rows_among(effects(s.scatter_failed(failure, now).1));
}

proof fn lemma_backend_counts(
    s: model::PumpView,
    m: wire::BackendView,
    action: intercept::ActionView,
    now: Nanos,
)
    requires
        s.hooks is Some,
        s.has_room(),
        action matches intercept::ActionView::Reply(messages) ==> s.has_room_for(messages),
    ensures
        counts(s, s.backend_step(m, action, now).0, s.backend_step(m, action, now).1),
{
    match action {
        intercept::ActionView::Reply(messages) => {
            lemma_rows_among_sends(messages);
        },
        _ => {},
    }
}

proof fn lemma_frontend_counts(
    s: model::PumpView,
    m: wire::FrontendView,
    action: intercept::ActionView,
)
    requires
        s.hooks is Some,
        action matches intercept::ActionView::Reply(messages) ==> s.has_room_for(messages),
    ensures
        counts(s, s.frontend_step(m, action).0, s.frontend_step(m, action).1),
{
    match action {
        intercept::ActionView::Reply(messages) => {
            lemma_rows_among_sends(messages);
        },
        _ => {},
    }
}

proof fn lemma_upstream_counts(s: model::PumpView, event: wire::UpstreamEventView, now: Nanos)
    requires
        s.hooks is Some,
    ensures
        counts(s, s.upstream_step(event, now).0, s.upstream_step(event, now).1),
{
}

proof fn lemma_delivered_counts(s: model::PumpView, delivery: model::DeliveryView)
    requires
        s.hooks is Some,
    ensures
        counts(s, s.delivered_step(delivery).0, s.delivered_step(delivery).1),
{
    lemma_no_rows_among(effects(s.delivered_step(delivery).1));
}

/// The rows of a cycle are those sent to the client: a row counts with the
/// step that sends it and with no other, whichever hook let it pass, replaced
/// it or made it up. Each query starts its count anew; a merged result brings
/// its own count.
pub proof fn law_rows_counted_as_sent(s: model::PumpView, e: EventView, now: Nanos)
    requires
        s.hooks is Some,
        s.has_room(),
        !(e is Merged),
        e matches EventView::Query { action: intercept::ActionView::Reply(messages), .. }
            ==> model::count_rows(messages) <= u64::MAX,
        e matches EventView::Frontend { action: intercept::ActionView::Reply(messages), .. }
            ==> s.has_room_for(messages),
        e matches EventView::Backend { action: intercept::ActionView::Reply(messages), .. }
            ==> s.has_room_for(messages),
    ensures
        ({
            let (t, st) = step(s, e, now);
            if e matches EventView::Query { action, .. } && !(action is Close) {
                t.cycle().rows == rows_sent(st)
            } else {
                t.cycle().rows == s.cycle().rows + rows_sent(st)
            }
        }),
{
    reveal(step);
    match e {
        EventView::Downstream(event) => {
            lemma_downstream_counts(s, event, now);
        },
        EventView::Query { message, asked, action } => {
            if !(action is Close) {
                lemma_query_counts(s, message, asked, action, now);
            }
        },
        EventView::ScatterFailed(failure) => {
            lemma_scatter_failed_counts(s, failure, now);
        },
        EventView::AttachFailed(message) => {
            lemma_no_rows_among(effects(s.attach_failed_step(message).1));
        },
        EventView::Frontend { message, action } => {
            lemma_frontend_counts(s, message, action);
        },
        EventView::Lost { cause, decision } => {
            lemma_lost_counts(s, cause, decision, now);
        },
        EventView::Upstream(event) => {
            lemma_upstream_counts(s, event, now);
        },
        EventView::Backend { message, action } => {
            lemma_backend_counts(s, message, action, now);
        },
        EventView::Delivered(delivery) => {
            lemma_delivered_counts(s, delivery);
        },
        _ => {},
    }
}

/// Whether the session is shown attached just while it holds a connection, and
/// knows the endpoint of the connection that it holds.
pub open spec fn shows_attached(s: model::PumpView) -> bool {
    &&& s.shown_attached == (s.lease is Some)
    &&& s.lease is Some ==> s.endpoint is Some
}

proof fn lemma_enroll_shows(s: model::PumpView, m: wire::FrontendView, hint: Option<Seq<char>>)
    requires
        shows_attached(s),
    ensures
        shows_attached(s.enroll_step(m, hint).0),
{
}

proof fn lemma_downstream_shows(s: model::PumpView, event: model::DownstreamEventView, now: Nanos)
    requires
        shows_attached(s),
    ensures
        shows_attached(s.downstream_step(event, now).0),
{
    match event {
        model::DownstreamEventView::Message(m) => {
            let input = cycle::input_of(m)->0;
            let s1 = model::PumpView { extended: input.kind is Extended, ..s };
            lemma_enroll_shows(s1, m, Some(input.sql));
            lemma_enroll_shows(s, m, None);
        },
        _ => {},
    }
}

proof fn lemma_query_shows(
    s: model::PumpView,
    m: wire::FrontendView,
    asked: intercept::QueryView,
    action: intercept::ActionView,
    now: Nanos,
)
    requires
        shows_attached(s),
    ensures
        shows_attached(s.query_step(m, asked, action, now).0),
{
    let input = cycle::input_of(m)->0;
    let sent = cycle::rewritten(m, asked.replacement());
    let begun = s.with_cycle(cycle::fresh_cycle(cycle::sql_of(sent), input.kind, now));
    lemma_enroll_shows(begun, sent, Some(input.sql));
}

proof fn lemma_scatter_failed_shows(s: model::PumpView, failure: scatter::FailureView, now: Nanos)
    requires
        shows_attached(s),
    ensures
        shows_attached(s.scatter_failed(failure, now).0),
{
}

proof fn lemma_lost_shows(
    s: model::PumpView,
    cause: LossCause,
    decision: RetryDecision,
    now: Nanos,
)
    requires
        shows_attached(s),
    ensures
        shows_attached(s.lost_step(cause, decision, now).0),
{
}

proof fn lemma_upstream_shows(s: model::PumpView, event: wire::UpstreamEventView, now: Nanos)
    requires
        shows_attached(s),
        s.lease is Some,
    ensures
        shows_attached(s.upstream_step(event, now).0),
{
    match event {
        wire::UpstreamEventView::Closed => {
            lemma_lost_shows(s, LossCause::Closed, RetryDecision::Relink, now);
        },
        wire::UpstreamEventView::Broken(_) => {},
        wire::UpstreamEventView::Message(m) => {
            assert(shows_attached(s.noticed(m)));
        },
    }
}

proof fn lemma_delivered_shows(s: model::PumpView, delivery: model::DeliveryView)
    requires
        shows_attached(s),
    ensures
        shows_attached(s.delivered_step(delivery).0),
{
}

proof fn lemma_backend_shows(
    s: model::PumpView,
    m: wire::BackendView,
    action: intercept::ActionView,
    now: Nanos,
)
    requires
        shows_attached(s),
    ensures
        shows_attached(s.backend_step(m, action, now).0),
{
}

proof fn lemma_frontend_shows(
    s: model::PumpView,
    m: wire::FrontendView,
    action: intercept::ActionView,
)
    requires
        shows_attached(s),
    ensures
        shows_attached(s.frontend_step(m, action).0),
{
}

proof fn lemma_merged_shows(
    s: model::PumpView,
    tag: Seq<char>,
    merged: scatter::MergedView,
    now: Nanos,
)
    requires
        shows_attached(s),
    ensures
        shows_attached(s.scatter_merged(tag, merged, now).0),
{
}

proof fn lemma_attach_shows(
    s: model::PumpView,
    m: wire::FrontendView,
    endpoint: Seq<char>,
    status: TransactionStatus,
    dirtied: bool,
)
    ensures
        shows_attached(s.attach_step(m, endpoint, status, dirtied).0),
{
}

/// Whatever happens, a session is shown attached just while it holds a
/// connection, and then knows the connection's endpoint; so a connection that
/// is lost is reported under its endpoint.
pub proof fn law_attachment_shown(s: model::PumpView, e: EventView, cause: LossCause, now: Nanos)
    requires
        shows_attached(s),
        e is Upstream ==> s.lease is Some,
    ensures
        shows_attached(step(s, e, now).0),
        s.lease is Some ==> s.loss(cause)->ConnectionLost_endpoint == s.endpoint->0,
{
    reveal(step);
    match e {
        EventView::Downstream(event) => {
            lemma_downstream_shows(s, event, now);
        },
        EventView::Query { message, asked, action } => {
            lemma_query_shows(s, message, asked, action, now);
        },
        EventView::Merged { tag, merged } => {
            lemma_merged_shows(s, tag, merged, now);
        },
        EventView::ScatterFailed(failure) => {
            lemma_scatter_failed_shows(s, failure, now);
        },
        EventView::Attached { message, endpoint, status, dirtied } => {
            lemma_attach_shows(s, message, endpoint, status, dirtied);
        },
        EventView::Frontend { message, action } => {
            lemma_frontend_shows(s, message, action);
        },
        EventView::Backend { message, action } => {
            lemma_backend_shows(s, message, action, now);
        },
        EventView::Delivered(delivery) => {
            lemma_delivered_shows(s, delivery);
        },
        EventView::ForwardFailed => {
            lemma_lost_shows(s, LossCause::Send, RetryDecision::Relink, now);
        },
        EventView::Lost { cause, decision } => {
            lemma_lost_shows(s, cause, decision, now);
        },
        EventView::Upstream(event) => {
            lemma_upstream_shows(s, event, now);
        },
        _ => {},
    }
}

/// Whether the step answers a cycle with an error and `ReadyForQuery`, reports
/// it with the error, and leaves the session ready for the next cycle on the
/// connection that it had.
pub open spec fn refuses(
    s: model::PumpView,
    error: Seq<(u8, Seq<char>)>,
    t: model::PumpView,
    st: model::StepView,
) -> bool {
    &&& effects(st).len() == 3
    &&& st == model::wait(effects(st))
    &&& effects(st)[0] == model::failed(error)
    &&& effects(st)[1] == model::ready(s.lease_status())
    &&& effects(st)[2] matches model::EffectView::CycleEnd(report)
    &&& report.error == Some(intercept::cycle_error_of(error))
    &&& !follows_cycle(t)
    &&& t.swallow == s.swallow
    &&& t.lease == s.lease
    &&& t.endpoint == s.endpoint
    &&& t.shown_attached == s.shown_attached
    &&& t.registry == s.registry
    &&& t.hygiene == s.hygiene
}

/// An extended-protocol scatter, and one inside a transaction, is never run: the
/// client gets an error with SQLSTATE 0A000 and `ReadyForQuery`, the cycle is
/// reported with the error, and the session goes on as it was. Any other is run
/// as requested.
pub proof fn law_scatter_restrictions(
    s: model::PumpView,
    message: wire::FrontendView,
    asked: intercept::QueryView,
    request: scatter::RequestView,
    now: Nanos,
)
    requires
        s.hooks is Some,
        cycle::input_of(message) is Some,
    ensures
        ({
            let (t, st) = s.query_step(
                message,
                asked,
                intercept::ActionView::Scatter(request),
                now,
            );
            &&& message is Query && s.status == TransactionStatus::Idle ==> st == (
            model::StepView::Scatter { request })
            &&& message is Parse ==> refuses(s, model::scatter_protocol_error(), t, st)
            &&& message is Query && s.status != TransactionStatus::Idle ==> refuses(
                s,
                model::scatter_transaction_error(),
                t,
                st,
            )
            &&& wire::field_value(model::scatter_protocol_error(), 0x43) == "0A000"@
            &&& wire::field_value(model::scatter_transaction_error(), 0x43) == "0A000"@
        }),
{
    wire::law_error_fields("ERROR"@, "0A000"@, "pgferry scatter: simple protocol only"@);
    wire::law_error_fields(
        "ERROR"@,
        "0A000"@,
        "pgferry scatter: not allowed inside a transaction"@,
    );
}

/// A failed scatter is answered with the shard's error and one
/// `ReadyForQuery`, and reported. The attached connection is given up exactly
/// when it broke; otherwise the session keeps it and its endpoint, and is
/// shown attached just when it has one.
pub proof fn law_failed_scatter(s: model::PumpView, failure: scatter::FailureView, now: Nanos)
    requires
        s.hooks is Some,
    ensures
        ({
            let (t, st) = s.scatter_failed(failure, now);
            let breaks = failure.session_lease_broken && s.lease is Some;
            &&& t.lease is Some <==> s.lease is Some && !breaks
            &&& t.endpoint == (if breaks {
                None
            } else {
                s.endpoint
            })
            &&& t.shown_attached == (t.lease is Some)
            &&& t.status == t.lease_status()
            &&& does(st, model::EffectView::Destroy("scatter: session shard failed"@)) <==> breaks
            &&& does(st, model::failed(failure.error))
            &&& does(st, model::ready(t.lease_status()))
            &&& reports(st)
        }),
{
    let (t, st) = s.scatter_failed(failure, now);
    let all = effects(st);
    assert(all[all.len() - 3] == model::failed(failure.error));
    assert(all[all.len() - 2] == model::ready(t.lease_status()));
    if failure.session_lease_broken && s.lease is Some {
        assert(all[0] == model::EffectView::Destroy("scatter: session shard failed"@));
    }
}

} // verus!
