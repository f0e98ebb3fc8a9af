//! Bringing a connection back to a neutral state after a session ended:
//!
//! 1. stop anything still executing: cancel a query in flight, or abort a
//!    COPY the server is waiting on;
//! 2. close any open extended-query cycle (`Sync`, then drain);
//! 3. `ROLLBACK` if a transaction was left open;
//! 4. `DISCARD ALL` (temporary tables, `LISTEN`s, session parameters,
//!    prepared statements).
//!
//! The ordering is subtle. A cancel makes the server emit `ErrorResponse` and
//! `ReadyForQuery` for the aborted cycle on its own, so the connection is
//! drained *without* sending `Sync` first. A stray `Sync` on top would queue
//! a second `ReadyForQuery`, shifting every later response cycle. Only when
//! the terminal messages do not arrive in time is `Sync` sent to elicit the
//! `ReadyForQuery`.

use vstd::prelude::*;

use crate::pool::{CopyCleanup, Hygiene};
use crate::wire::TransactionStatus;

verus! {

/// What to do with the connection next.
#[derive(Debug, Clone, Copy, PartialEq, Eq, Structural)]
pub enum SanitizeStep {
    /// Send `CopyFail`.
    FailCopy,
    /// Cancel the running query on a side connection. It does not matter
    /// whether that succeeds.
    Cancel,
    /// Consume everything up to `ReadyForQuery`, for a short time only.
    DrainBriefly,
    /// Send `Sync`.
    Sync,
    /// Consume everything up to `ReadyForQuery`.
    Drain,
    /// Run `ROLLBACK`.
    Rollback,
    /// Run `DISCARD ALL`.
    Discard,
    /// The connection is in its neutral state.
    Done,
    /// The connection cannot be used any more.
    Failed,
}

/// How the step went.
#[derive(Debug, Clone, Copy, PartialEq, Eq, Structural)]
pub enum SanitizeEvent {
    /// The message was sent, the query completed, the cancel was attempted.
    Completed,
    /// `ReadyForQuery` was consumed; the connection is in this state.
    Ready(TransactionStatus),
    /// `ReadyForQuery` did not come in time.
    TimedOut,
    /// The connection failed.
    Broke,
}

/// The message that aborts a COPY.
pub const COPY_FAIL_REASON: &'static str = "pgferry: client disconnected during COPY";

/// The first step for a connection that a session left like this.
pub open spec fn first_step(hygiene: Hygiene) -> SanitizeStep {
    if hygiene.copy == CopyCleanup::ClientOwesCopy {
        SanitizeStep::FailCopy
    } else if hygiene.awaiting_response {
        SanitizeStep::Cancel
    } else {
        SanitizeStep::Sync
    }
}

/// The step after `step` went as `event` says.
pub open spec fn next_step(
    hygiene: Hygiene,
    step: SanitizeStep,
    event: SanitizeEvent,
) -> SanitizeStep {
    match (step, event) {
        (SanitizeStep::FailCopy, SanitizeEvent::Completed) => if hygiene.awaiting_response {
            SanitizeStep::Cancel
        } else {
            SanitizeStep::DrainBriefly
        },
        (SanitizeStep::Cancel, _) => SanitizeStep::DrainBriefly,
        (SanitizeStep::DrainBriefly, SanitizeEvent::Ready(status)) => after_ready(status),
        (SanitizeStep::DrainBriefly, SanitizeEvent::TimedOut) => SanitizeStep::Sync,
        (SanitizeStep::Sync, SanitizeEvent::Completed) => SanitizeStep::Drain,
        (SanitizeStep::Drain, SanitizeEvent::Ready(status)) => after_ready(status),
        (SanitizeStep::Rollback, SanitizeEvent::Completed) => SanitizeStep::Discard,
        (SanitizeStep::Discard, SanitizeEvent::Completed) => SanitizeStep::Done,
        (SanitizeStep::Done, _) => SanitizeStep::Done,
        _ => SanitizeStep::Failed,
    }
}

/// The step once the connection is at `ReadyForQuery`.
pub open spec fn after_ready(status: TransactionStatus) -> SanitizeStep {
    if status == TransactionStatus::Idle {
        SanitizeStep::Discard
    } else {
        SanitizeStep::Rollback
    }
}

/// The first step for a connection that is given back idle.
pub open spec fn idle_step(dirty: bool) -> SanitizeStep {
    if dirty {
        SanitizeStep::Discard
    } else {
        SanitizeStep::Done
    }
}

/// The step for a connection that is given back idle, with nothing in flight:
/// it is reset only when the session dirtied it.
pub fn detach_step(dirty: bool) -> (r: SanitizeStep)
    ensures
        r == idle_step(dirty),
{
    if dirty {
        SanitizeStep::Discard
    } else {
        SanitizeStep::Done
    }
}

/// The way of one connection back to its neutral state.
pub struct Sanitizer {
    hygiene: Hygiene,
    step: SanitizeStep,
}

impl Sanitizer {
    /// What the session left behind.
    pub closed spec fn spec_hygiene(&self) -> Hygiene {
        self.hygiene
    }

    /// The step to do now.
    pub closed spec fn spec_step(&self) -> SanitizeStep {
        self.step
    }

    /// Start with a connection that a session left like this.
    pub fn new(hygiene: Hygiene) -> (s: Sanitizer)
        ensures
            s.spec_hygiene() == hygiene,
            s.spec_step() == first_step(hygiene),
    {
        let step = if hygiene.copy == CopyCleanup::ClientOwesCopy {
            SanitizeStep::FailCopy
        } else if hygiene.awaiting_response {
            SanitizeStep::Cancel
        } else {
            SanitizeStep::Sync
        };
        Sanitizer { hygiene, step }
    }

    /// The step to do now.
    pub fn step(&self) -> (r: SanitizeStep)
        ensures
            r == self.spec_step(),
    {
        self.step
    }

    /// The step went as `event` says.
    pub fn on_event(&mut self, event: SanitizeEvent) -> (r: SanitizeStep)
        ensures
            final(self).spec_hygiene() == old(self).spec_hygiene(),
            final(self).spec_step() == next_step(
                old(self).spec_hygiene(),
                old(self).spec_step(),
                event,
            ),
            r == final(self).spec_step(),
    {
        self.step = match (self.step, event) {
            (SanitizeStep::FailCopy, SanitizeEvent::Completed) => if self.hygiene.awaiting_response {
                SanitizeStep::Cancel
            } else {
                SanitizeStep::DrainBriefly
            },
            (SanitizeStep::Cancel, _) => SanitizeStep::DrainBriefly,
            (SanitizeStep::DrainBriefly, SanitizeEvent::Ready(status)) => to_neutral(status),
            (SanitizeStep::DrainBriefly, SanitizeEvent::TimedOut) => SanitizeStep::Sync,
            (SanitizeStep::Sync, SanitizeEvent::Completed) => SanitizeStep::Drain,
            (SanitizeStep::Drain, SanitizeEvent::Ready(status)) => to_neutral(status),
            (SanitizeStep::Rollback, SanitizeEvent::Completed) => SanitizeStep::Discard,
            (SanitizeStep::Discard, SanitizeEvent::Completed) => SanitizeStep::Done,
            (SanitizeStep::Done, _) => SanitizeStep::Done,
            _ => SanitizeStep::Failed,
        };
        self.step
    }
}

fn to_neutral(status: TransactionStatus) -> (r: SanitizeStep)
    ensures
        r == after_ready(status),
{
    if status == TransactionStatus::Idle {
        SanitizeStep::Discard
    } else {
        SanitizeStep::Rollback
    }
}

/// The steps done so far, the last one being the one to do now, once these
/// events have come.
pub open spec fn trace(hygiene: Hygiene, events: Seq<SanitizeEvent>) -> Seq<SanitizeStep>
    decreases events.len(),
{
    if events.len() == 0 {
        seq![first_step(hygiene)]
    } else {
        let before = trace(hygiene, events.drop_last());
        before.push(next_step(hygiene, before.last(), events.last()))
    }
}

proof fn lemma_trace_len(hygiene: Hygiene, events: Seq<SanitizeEvent>)
    ensures
        trace(hygiene, events).len() == events.len() + 1,
        trace(hygiene, events).first() == first_step(hygiene),
    decreases events.len(),
{
    if events.len() > 0 {
        lemma_trace_len(hygiene, events.drop_last());
    }
}

/// A connection counts as neutral only right after `DISCARD ALL` completed on
/// it: `Done` is reached from there and from nowhere else.
pub proof fn law_neutral_only_after_discard(
    hygiene: Hygiene,
    step: SanitizeStep,
    event: SanitizeEvent,
)
    ensures
        first_step(hygiene) != SanitizeStep::Done,
        next_step(hygiene, step, event) == SanitizeStep::Done && step != SanitizeStep::Done ==> {
            &&& step == SanitizeStep::Discard
            &&& event == SanitizeEvent::Completed
        },
{
}

/// An open transaction is rolled back before the reset, and nothing is rolled
/// back when none is open: the reset starts only with no transaction open or
/// after a completed `ROLLBACK`.
pub proof fn law_rollback_before_discard(
    hygiene: Hygiene,
    step: SanitizeStep,
    event: SanitizeEvent,
)
    ensures
        next_step(hygiene, step, event) == SanitizeStep::Discard ==> {
            ||| event == SanitizeEvent::Ready(TransactionStatus::Idle)
            ||| step == SanitizeStep::Rollback && event == SanitizeEvent::Completed
        },
        next_step(hygiene, step, event) == SanitizeStep::Rollback ==> {
            &&& event matches SanitizeEvent::Ready(status)
            &&& status != TransactionStatus::Idle
        },
{
}

/// `Sync` is sent either first, when nothing is owed, or when the terminal
/// messages of an aborted cycle did not come in time; and at most once. So no
/// second `ReadyForQuery` is ever queued behind one that is on its way.
pub proof fn law_sync_at_most_once(hygiene: Hygiene, events: Seq<SanitizeEvent>, i: int, j: int)
    requires
        0 <= i < j <= events.len(),
        trace(hygiene, events)[i] == SanitizeStep::Sync,
    ensures
        trace(hygiene, events)[j] != SanitizeStep::Sync,
        i == 0 || events[i - 1] == SanitizeEvent::TimedOut,
    decreases events.len(),
{
    lemma_trace_len(hygiene, events);
    lemma_after_sync(hygiene, events, i, j);
    if i > 0 {
        lemma_trace_step(hygiene, events, i - 1);
    }
}

proof fn lemma_trace_step(hygiene: Hygiene, events: Seq<SanitizeEvent>, k: int)
    requires
        0 <= k < events.len(),
    ensures
        trace(hygiene, events)[k + 1] == next_step(
            hygiene,
            trace(hygiene, events)[k],
            events[k],
        ),
    decreases events.len(),
{
    lemma_trace_len(hygiene, events);
    lemma_trace_len(hygiene, events.drop_last());
    if k < events.len() - 1 {
        lemma_trace_step(hygiene, events.drop_last(), k);
    }
}

/// Past `Sync`: draining, rolling back, resetting, or at an end.
spec fn past_sync(step: SanitizeStep) -> bool {
    ||| step == SanitizeStep::Drain
    ||| step == SanitizeStep::Rollback
    ||| step == SanitizeStep::Discard
    ||| step == SanitizeStep::Done
    ||| step == SanitizeStep::Failed
}

proof fn lemma_after_sync(hygiene: Hygiene, events: Seq<SanitizeEvent>, i: int, j: int)
    requires
        0 <= i < j <= events.len(),
        trace(hygiene, events)[i] == SanitizeStep::Sync,
    ensures
        past_sync(trace(hygiene, events)[j]),
    decreases j,
{
    lemma_trace_step(hygiene, events, j - 1);
    if i < j - 1 {
        lemma_after_sync(hygiene, events, i, j - 1);
    }
}

/// How it starts: a COPY that the client owes is failed, else a query that runs
/// is cancelled, and `Sync` starts the way only when nothing runs.
pub proof fn law_first_step(hygiene: Hygiene)
    ensures
        first_step(hygiene) == SanitizeStep::FailCopy <==> hygiene.copy
            == CopyCleanup::ClientOwesCopy,
        first_step(hygiene) == SanitizeStep::Cancel <==> hygiene.copy
            != CopyCleanup::ClientOwesCopy && hygiene.awaiting_response,
        first_step(hygiene) == SanitizeStep::Sync <==> hygiene.copy != CopyCleanup::ClientOwesCopy
            && !hygiene.awaiting_response,
{
}

/// A connection that was left quiet and answers comes back: `Sync`, everything
/// up to `ReadyForQuery`, a rollback exactly when a transaction is open or
/// failed, `DISCARD ALL`, done.
pub proof fn law_quiet_connection_comes_back(hygiene: Hygiene, status: TransactionStatus)
    requires
        hygiene.copy != CopyCleanup::ClientOwesCopy,
        !hygiene.awaiting_response,
    ensures
        ({
            let answered = seq![SanitizeEvent::Completed, SanitizeEvent::Ready(status)];
            let done = SanitizeEvent::Completed;
            &&& status == TransactionStatus::Idle ==> trace(hygiene, answered.push(done)) == seq![
                SanitizeStep::Sync,
                SanitizeStep::Drain,
                SanitizeStep::Discard,
                SanitizeStep::Done,
            ]
            &&& status != TransactionStatus::Idle ==> trace(
                hygiene,
                answered.push(done).push(done),
            ) == seq![
                SanitizeStep::Sync,
                SanitizeStep::Drain,
                SanitizeStep::Rollback,
                SanitizeStep::Discard,
                SanitizeStep::Done,
            ]
        }),
{
    let done = SanitizeEvent::Completed;
    let e0 = Seq::<SanitizeEvent>::empty();
    let e1 = e0.push(done);
    let e2 = e1.push(SanitizeEvent::Ready(status));
    let e3 = e2.push(done);
    let e4 = e3.push(done);
    assert(e1.drop_last() =~= e0);
    assert(e2.drop_last() =~= e1);
    assert(e3.drop_last() =~= e2);
    assert(e4.drop_last() =~= e3);
    assert(seq![SanitizeEvent::Completed, SanitizeEvent::Ready(status)] =~= e2);
    let next = if status == TransactionStatus::Idle {
        SanitizeStep::Discard
    } else {
        SanitizeStep::Rollback
    };
    assert(trace(hygiene, e0) == seq![SanitizeStep::Sync]);
    assert(trace(hygiene, e1) == seq![SanitizeStep::Sync, SanitizeStep::Drain]);
    assert(trace(hygiene, e2) == seq![SanitizeStep::Sync, SanitizeStep::Drain, next]);
    assert(trace(hygiene, e3) == trace(hygiene, e2).push(next_step(hygiene, next, done)));
    assert(trace(hygiene, e4) == trace(hygiene, e3).push(
        next_step(hygiene, trace(hygiene, e3).last(), done),
    ));
}

/// What was running is stopped first, and its end is waited for without a
/// `Sync`; however the cancel itself went. `Sync` follows only when the end does
/// not come in time, and then the wait has no such limit.
pub proof fn law_running_query_stopped(
    hygiene: Hygiene,
    cancelled: SanitizeEvent,
    status: TransactionStatus,
)
    requires
        hygiene.copy != CopyCleanup::ClientOwesCopy,
        hygiene.awaiting_response,
    ensures
        trace(hygiene, seq![cancelled]) == seq![SanitizeStep::Cancel, SanitizeStep::DrainBriefly],
        trace(hygiene, seq![cancelled, SanitizeEvent::Ready(status)]).last() == (if status
            == TransactionStatus::Idle {
            SanitizeStep::Discard
        } else {
            SanitizeStep::Rollback
        }),
        trace(hygiene, seq![cancelled, SanitizeEvent::TimedOut, SanitizeEvent::Completed]) == seq![
            SanitizeStep::Cancel,
            SanitizeStep::DrainBriefly,
            SanitizeStep::Sync,
            SanitizeStep::Drain,
        ],
{
    let e0 = Seq::<SanitizeEvent>::empty();
    let e1 = seq![cancelled];
    let r = seq![cancelled, SanitizeEvent::Ready(status)];
    let t = seq![cancelled, SanitizeEvent::TimedOut];
    let u = seq![cancelled, SanitizeEvent::TimedOut, SanitizeEvent::Completed];
    assert(e1.drop_last() =~= e0);
    assert(r.drop_last() =~= e1);
    assert(t.drop_last() =~= e1);
    assert(u.drop_last() =~= t);
    assert(trace(hygiene, e0) == seq![SanitizeStep::Cancel]);
    assert(trace(hygiene, e1) == seq![SanitizeStep::Cancel, SanitizeStep::DrainBriefly]);
    assert(trace(hygiene, t) == seq![
        SanitizeStep::Cancel,
        SanitizeStep::DrainBriefly,
        SanitizeStep::Sync,
    ]);
}

/// A COPY that was failed is followed by the cancel of a query that still runs,
/// else by the wait for the end of the COPY.
pub proof fn law_copy_failed_first(hygiene: Hygiene)
    requires
        hygiene.copy == CopyCleanup::ClientOwesCopy,
    ensures
        trace(hygiene, seq![SanitizeEvent::Completed]) == seq![
            SanitizeStep::FailCopy,
            if hygiene.awaiting_response {
                SanitizeStep::Cancel
            } else {
                SanitizeStep::DrainBriefly
            },
        ],
{
    let e1 = seq![SanitizeEvent::Completed];
    assert(e1.drop_last() =~= Seq::<SanitizeEvent>::empty());
    assert(trace(hygiene, Seq::empty()) == seq![SanitizeStep::FailCopy]);
}

/// A connection that fails on the way is given up for good, unless it is
/// neutral already or only the side connection of the cancel failed; and one
/// that is neutral stays so.
pub proof fn law_broken_connection_given_up(
    hygiene: Hygiene,
    step: SanitizeStep,
    event: SanitizeEvent,
)
    ensures
        step != SanitizeStep::Cancel && step != SanitizeStep::Done ==> next_step(
            hygiene,
            step,
            SanitizeEvent::Broke,
        ) == SanitizeStep::Failed,
        step != SanitizeStep::Cancel && step != SanitizeStep::Done && step
            != SanitizeStep::DrainBriefly ==> next_step(hygiene, step, SanitizeEvent::TimedOut)
            == SanitizeStep::Failed,
        next_step(hygiene, SanitizeStep::Failed, event) == SanitizeStep::Failed,
        next_step(hygiene, SanitizeStep::Done, event) == SanitizeStep::Done,
{
}

/// A connection that is given back between transactions is neutral as it is when
/// the session left nothing on it, and otherwise after `DISCARD ALL` alone: no
/// `Sync`, no rollback.
pub proof fn law_given_back_idle(hygiene: Hygiene)
    ensures
        idle_step(false) == SanitizeStep::Done,
        idle_step(true) != SanitizeStep::Done,
        next_step(hygiene, idle_step(true), SanitizeEvent::Completed) == SanitizeStep::Done,
        next_step(hygiene, idle_step(true), SanitizeEvent::Broke) == SanitizeStep::Failed,
{
}

} // verus!
