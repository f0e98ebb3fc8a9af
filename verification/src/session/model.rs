//! The mathematical model of the message pump: the state of a session, what
//! can happen to it, and what it does in answer.
//!
//! Each `..._step` function takes the state and one event to the next state
//! and the step to perform. The executable pump is proved to take exactly
//! these steps; the session's laws are stated over them.

use vstd::prelude::*;

use crate::intercept;
use crate::intercept::{RetryDecision, RowAction};
use crate::pool::{CopyCleanup, Hygiene};
use crate::scatter;
use crate::session::cycle;
use crate::session::registry;
use crate::text;
use crate::time::Nanos;
use crate::wire;
use crate::wire::{BackendKind, FrontendKind, TransactionStatus};

verus! {

// ---------------------------------------------------------------------------
// vocabulary
// ---------------------------------------------------------------------------

/// What a session does on its own, in this order, before it takes its step.
/// When a message cannot be sent the rest is dropped and the session ends.
#[verifier::ext_equal]
pub enum EffectView {
    /// Send a message to the client.
    Send(wire::BackendView),
    /// Report an ended cycle to the hooks.
    CycleEnd(intercept::ReportView),
    /// Close the upstream connection instead of returning it to its pool.
    Destroy(Seq<char>),
    /// Return the upstream connection to its pool; a dirty one is reset.
    Release { dirty: bool },
}

/// Why a session ended: decides whether its upstream connection is returned
/// to the pool or destroyed.
#[verifier::ext_equal]
pub enum EndView {
    /// The client terminated, vanished or sent undecodable bytes. The
    /// upstream connection is healthy.
    ClientGone,
    /// The upstream connection broke.
    UpstreamBroken(Seq<char>),
}

/// How the loss of an upstream connection was noticed.
#[derive(Debug, Clone, Copy, PartialEq, Eq, Structural)]
pub enum LossCause {
    /// A message could not be sent.
    Send,
    /// The connection was closed by the other side.
    Closed,
}

/// What is left to do once a message has been delivered to the client.
#[verifier::ext_equal]
pub struct DeliveryView {
    /// The message was `ReadyForQuery`.
    pub ready: bool,
    /// The report of the cycle that it ends.
    pub report: Option<intercept::ReportView>,
}

/// The step a session takes next.
#[verifier::ext_equal]
pub enum StepView {
    /// Wait for the next event.
    Wait { effects: Seq<EffectView> },
    /// End the session.
    End { effects: Seq<EffectView>, end: EndView },
    /// Ask the query hook about the cycle that the message starts.
    Query { message: wire::FrontendView, cycle: intercept::QueryView },
    /// Run a scatter request.
    Scatter { request: scatter::RequestView },
    /// Attach an upstream connection for the message.
    Attach { message: wire::FrontendView, sql_hint: Option<Seq<char>> },
    /// Show the message to the raw client-message hook.
    Frontend { message: wire::FrontendView },
    /// Hand the message to the upstream connection.
    Forward { message: wire::FrontendView, flush: bool },
    /// Ask the error policy what to do about the lost connection.
    Lost { cause: LossCause, error: intercept::UpstreamErrorView },
    /// Ask the row hook about a row.
    Row { row: intercept::RowEditView },
    /// Show the message to the raw server-message hook.
    Backend { message: wire::BackendView },
    /// Send the message to the client.
    Deliver { message: wire::BackendView, delivery: DeliveryView },
}

/// What arrives from the client.
#[verifier::ext_equal]
pub enum DownstreamEventView {
    Message(wire::FrontendView),
    Closed,
    Broken,
}

/// The state that hooks need.
#[verifier::ext_equal]
pub struct HooksView {
    /// The hooks want to see rows.
    pub wants_rows: bool,
    /// The hooks want command tags to count the rows that are left.
    pub adjust_counts: bool,
    /// The current result-set schema.
    pub schema: Seq<intercept::ColumnView>,
    /// Telemetry of the active cycle.
    pub cycle: cycle::TrackingView,
}

/// The state of a session.
#[verifier::ext_equal]
pub struct PumpView {
    /// Connections are leased per transaction, not per session.
    pub transaction_mode: bool,
    /// The state of the hooks, when there are hooks.
    pub hooks: Option<HooksView>,
    /// The transaction state of the attached connection, when one is
    /// attached.
    pub lease: Option<TransactionStatus>,
    /// The transaction state that the client last saw.
    pub status: TransactionStatus,
    /// The endpoint of the attached connection.
    pub endpoint: Option<Seq<char>>,
    /// Client messages forwarded since the last `ReadyForQuery`.
    pub fed: u32,
    /// Whether the cycle in flight is an extended-protocol one.
    pub extended: bool,
    /// Client messages forwarded.
    pub frontend: u64,
    /// Server messages forwarded.
    pub backend: u64,
    /// What checkin has to clean up if the session ended now.
    pub hygiene: Hygiene,
    /// The session's named statements.
    pub registry: Map<Seq<char>, registry::StatementView>,
    /// The parameter values that the session has set.
    pub overrides: Map<Seq<char>, Seq<char>>,
    /// The attached connection carries session state.
    pub dirty: bool,
    /// Client messages are swallowed until `Sync`, after an injected error.
    pub swallow: bool,
    /// The session ends when the current cycle has finished.
    pub draining: bool,
    /// Whether the session shows as attached to an upstream connection.
    pub shown_attached: bool,
}

// ---------------------------------------------------------------------------
// effects
// ---------------------------------------------------------------------------

/// Send `ReadyForQuery`.
pub open spec fn ready(status: TransactionStatus) -> EffectView {
    EffectView::Send(wire::BackendView::ReadyForQuery { status })
}

/// Send an error.
pub open spec fn failed(error: Seq<(u8, Seq<char>)>) -> EffectView {
    EffectView::Send(wire::BackendView::ErrorResponse { error })
}

/// Send these messages.
pub open spec fn sends(messages: Seq<wire::BackendView>) -> Seq<EffectView> {
    messages.map_values(|m: wire::BackendView| EffectView::Send(m))
}

/// Nothing.
pub open spec fn nothing() -> Seq<EffectView> {
    Seq::empty()
}

/// Wait for the next event, with these effects first.
pub open spec fn wait(effects: Seq<EffectView>) -> StepView {
    StepView::Wait { effects }
}

/// End the session because the client is gone.
pub open spec fn gone() -> StepView {
    StepView::End { effects: nothing(), end: EndView::ClientGone }
}

/// The error that answers a cycle whose connection was lost.
pub open spec fn lost_error() -> Seq<(u8, Seq<char>)> {
    wire::error_view("ERROR"@, "08006"@, "upstream connection lost"@)
}

/// The error that answers a `Parse` of a name that another statement has.
pub open spec fn duplicate_error(name: Seq<char>) -> Seq<(u8, Seq<char>)> {
    wire::error_view(
        "ERROR"@,
        "42P05"@,
        "prepared statement \""@ + name + "\" already exists (pgferry)"@,
    )
}

/// The error that answers a scatter in the extended protocol.
pub open spec fn scatter_protocol_error() -> Seq<(u8, Seq<char>)> {
    wire::error_view("ERROR"@, "0A000"@, "pgferry scatter: simple protocol only"@)
}

/// The error that answers a scatter inside a transaction.
pub open spec fn scatter_transaction_error() -> Seq<(u8, Seq<char>)> {
    wire::error_view("ERROR"@, "0A000"@, "pgferry scatter: not allowed inside a transaction"@)
}

/// The error that ends a session which cannot be attached.
pub open spec fn attach_error(message: Seq<char>) -> Seq<(u8, Seq<char>)> {
    wire::error_view("FATAL"@, "08006"@, message)
}

/// How many of the messages are rows.
pub open spec fn count_rows(messages: Seq<wire::BackendView>) -> nat
    decreases messages.len(),
{
    if messages.len() == 0 {
        0
    } else {
        count_rows(messages.drop_last()) + if messages.last() is DataRow {
            1nat
        } else {
            0nat
        }
    }
}

/// The last command tag among the messages.
pub open spec fn last_tag(messages: Seq<wire::BackendView>) -> Option<Seq<char>>
    decreases messages.len(),
{
    if messages.len() == 0 {
        None
    } else {
        match messages.last() {
            wire::BackendView::CommandComplete { tag } => Some(tag),
            _ => last_tag(messages.drop_last()),
        }
    }
}

/// The last error among the messages.
pub open spec fn last_error(messages: Seq<wire::BackendView>) -> Option<intercept::CycleErrorView>
    decreases messages.len(),
{
    if messages.len() == 0 {
        None
    } else {
        match messages.last() {
            wire::BackendView::ErrorResponse { error } => Some(intercept::cycle_error_of(error)),
            _ => last_error(messages.drop_last()),
        }
    }
}

// ---------------------------------------------------------------------------
// the steps
// ---------------------------------------------------------------------------

impl PumpView {
    /// Whether every counter can count one more.
    pub open spec fn has_room(self) -> bool {
        &&& self.fed < u32::MAX
        &&& self.frontend < u64::MAX
        &&& self.backend < u64::MAX
        &&& self.hooks matches Some(h) ==> {
            &&& h.cycle.rows < u64::MAX
            &&& h.cycle.dropped_pending < u64::MAX
            &&& h.cycle.dropped_total < u64::MAX
        }
    }

    /// Whether the count of rows sent can take in those among the messages.
    pub open spec fn has_room_for(self, messages: Seq<wire::BackendView>) -> bool {
        self.hooks matches Some(h) ==> h.cycle.rows + count_rows(messages) <= u64::MAX
    }

    /// Whether rows are decoded for the row hook.
    pub open spec fn decodes_rows(self) -> bool {
        self.hooks matches Some(h) && h.wants_rows
    }

    /// The transaction state of the attached connection; idle without one.
    pub open spec fn lease_status(self) -> TransactionStatus {
        match self.lease {
            Some(s) => s,
            None => TransactionStatus::Idle,
        }
    }

    /// The telemetry of the active cycle.
    pub open spec fn cycle(self) -> cycle::TrackingView {
        self.hooks->0.cycle
    }

    /// The state with this telemetry.
    pub open spec fn with_cycle(self, cycle: cycle::TrackingView) -> PumpView {
        PumpView { hooks: Some(HooksView { cycle, ..self.hooks->0 }), ..self }
    }

    /// The state with the cycle ended.
    pub open spec fn cycle_ended(self) -> PumpView {
        self.with_cycle(self.cycle().finished())
    }

    /// The state with this error noted in the telemetry, when there are hooks.
    pub open spec fn error_noted(self, error: Seq<(u8, Seq<char>)>) -> PumpView {
        if self.hooks is Some {
            self.with_cycle(self.cycle().with_error(intercept::cycle_error_of(error)))
        } else {
            self
        }
    }

    /// The state with one more row sent to the client noted in the telemetry.
    pub open spec fn row_noted(self) -> PumpView {
        self.with_cycle(
            cycle::TrackingView { rows: (self.cycle().rows + 1) as u64, ..self.cycle() },
        )
    }

    /// The state with messages that a hook sent to the client noted in the
    /// telemetry, when there are hooks: their rows, the last command tag and
    /// the last error among them.
    pub open spec fn reply_noted(self, messages: Seq<wire::BackendView>) -> PumpView {
        if self.hooks is Some {
            self.with_cycle(
                cycle::TrackingView {
                    rows: (self.cycle().rows + count_rows(messages)) as u64,
                    tag: match last_tag(messages) {
                        Some(tag) => Some(tag),
                        None => self.cycle().tag,
                    },
                    error: match last_error(messages) {
                        Some(error) => Some(error),
                        None => self.cycle().error,
                    },
                    ..self.cycle()
                },
            )
        } else {
            self
        }
    }

    // ---- client messages ----

    /// Something arrived from the client.
    pub open spec fn downstream_step(
        self,
        event: DownstreamEventView,
        now: Nanos,
    ) -> (PumpView, StepView) {
        match event {
            DownstreamEventView::Message(m) => if m is Terminate {
                (self, gone())
            } else if self.swallow {
                self.swallow_step(m, now)
            } else if self.transaction_mode && self.lease is None && m is Sync {
                self.detached_sync_step(now)
            } else if self.transaction_mode && self.lease is None && m is Flush {
                (self, wait(nothing()))
            } else if self.transaction_mode && self.lease is None && m is Close {
                (
                    self.statement_closed(m),
                    wait(seq![EffectView::Send(wire::BackendView::CloseComplete)]),
                )
            } else {
                self.message_step(m)
            },
            _ => (self, gone()),
        }
    }

    /// A client message while the session recovers from an injected error.
    pub open spec fn swallow_step(self, m: wire::FrontendView, now: Nanos) -> (PumpView, StepView) {
        if m is Sync {
            let s = PumpView { swallow: false, ..self };
            if self.hooks is Some {
                (
                    s.cycle_ended(),
                    wait(
                        seq![
                            ready(self.lease_status()),
                            EffectView::CycleEnd(self.cycle().report(now)),
                        ],
                    ),
                )
            } else {
                (s, wait(seq![ready(self.lease_status())]))
            }
        } else {
            (self, wait(nothing()))
        }
    }

    /// A `Sync` while detached: there is nothing to synchronize.
    pub open spec fn detached_sync_step(self, now: Nanos) -> (PumpView, StepView) {
        if self.hooks is Some && self.cycle().active {
            (
                self.cycle_ended(),
                wait(seq![ready(self.status), EffectView::CycleEnd(self.cycle().report(now))]),
            )
        } else {
            (self, wait(seq![ready(self.status)]))
        }
    }

    /// The state once the statement that `m` closes is forgotten.
    pub open spec fn statement_closed(self, m: wire::FrontendView) -> PumpView {
        match m {
            wire::FrontendView::Close { target, name: Some(name) } => if target
                == wire::CLOSE_STATEMENT {
                PumpView { registry: self.registry.remove(name), ..self }
            } else {
                self
            },
            _ => self,
        }
    }

    /// A client message that goes on its way upstream.
    pub open spec fn message_step(self, m: wire::FrontendView) -> (PumpView, StepView) {
        match cycle::input_of(m) {
            Some(input) => {
                let s = PumpView { extended: input.kind is Extended, ..self };
                if self.hooks is Some {
                    (
                        s,
                        StepView::Query {
                            message: m,
                            cycle: intercept::QueryView {
                                sql: input.sql,
                                kind: input.kind,
                                rewritten: false,
                            },
                        },
                    )
                } else {
                    s.enroll_step(m, Some(input.sql))
                }
            },
            None => self.enroll_step(m, None),
        }
    }

    /// The query hook has answered about the cycle that `m` starts. The cycle is
    /// reported with its SQL as the hook left it.
    pub open spec fn query_step(
        self,
        m: wire::FrontendView,
        asked: intercept::QueryView,
        action: intercept::ActionView,
        now: Nanos,
    ) -> (PumpView, StepView) {
        let input = cycle::input_of(m)->0;
        let sent = cycle::rewritten(m, asked.replacement());
        let s = self.with_cycle(cycle::fresh_cycle(cycle::sql_of(sent), input.kind, now));
        match action {
            intercept::ActionView::Forward => s.enroll_step(sent, Some(input.sql)),
            intercept::ActionView::Deny(error) => s.refused(input.kind is Extended, error, now),
            intercept::ActionView::Reply(messages) => if input.kind is Extended {
                (
                    PumpView { swallow: true, ..s.reply_noted(messages) },
                    wait(sends(messages).push(ready(self.lease_status()))),
                )
            } else {
                s.reply_noted(messages).answered(false, sends(messages), now)
            },
            intercept::ActionView::Scatter(request) => if input.kind is Extended {
                s.refused(false, scatter_protocol_error(), now)
            } else if self.status != TransactionStatus::Idle {
                s.refused(false, scatter_transaction_error(), now)
            } else {
                (s, StepView::Scatter { request })
            },
            intercept::ActionView::Close => (self, gone()),
        }
    }

    /// A cycle has been answered locally with `effects`. Either the session
    /// recovers until `Sync`, or the cycle ends with `ReadyForQuery`.
    pub open spec fn answered(
        self,
        recovers: bool,
        effects: Seq<EffectView>,
        now: Nanos,
    ) -> (PumpView, StepView) {
        if recovers {
            (PumpView { swallow: true, ..self }, wait(effects))
        } else {
            (
                self.cycle_ended(),
                wait(
                    effects.push(ready(self.lease_status())).push(
                        EffectView::CycleEnd(self.cycle().report(now)),
                    ),
                ),
            )
        }
    }

    /// A cycle has been refused with `error`.
    pub open spec fn refused(self, recovers: bool, error: Seq<(u8, Seq<char>)>, now: Nanos) -> (
        PumpView,
        StepView,
    ) {
        self.error_noted(error).answered(recovers, seq![failed(error)], now)
    }

    /// The state with the attached connection in this transaction state, when
    /// a scatter leg ran on it.
    pub open spec fn session_leg(self, status: Option<TransactionStatus>) -> PumpView {
        match status {
            Some(s) => if self.lease is Some {
                PumpView { lease: Some(s), ..self }
            } else {
                self
            },
            None => self,
        }
    }

    /// A scatter under the command tag `tag` has been merged.
    pub open spec fn scatter_merged(
        self,
        tag: Seq<char>,
        merged: scatter::MergedView,
        now: Nanos,
    ) -> (PumpView, StepView) {
        let s = self.session_leg(merged.session_status).with_cycle(
            cycle::TrackingView {
                rows: merged.rows,
                tag: Some(tag + " "@ + text::decimal(merged.rows as nat)),
                ..self.cycle()
            },
        );
        (
            s.cycle_ended(),
            wait(
                sends(merged.messages).push(ready(self.status)).push(
                    EffectView::CycleEnd(s.cycle().report(now)),
                ),
            ),
        )
    }

    /// A scatter has failed. When the attached connection broke it is given
    /// up; otherwise it stays attached.
    pub open spec fn scatter_failed(
        self,
        failure: scatter::FailureView,
        now: Nanos,
    ) -> (PumpView, StepView) {
        let breaks = failure.session_lease_broken && self.lease is Some;
        let left = if breaks {
            PumpView { lease: None, endpoint: None, ..self }
        } else {
            self.session_leg(failure.session_status)
        };
        let s = PumpView {
            shown_attached: left.lease is Some,
            status: left.lease_status(),
            ..left
        }.error_noted(failure.error);
        let first = if breaks {
            seq![EffectView::Destroy("scatter: session shard failed"@)]
        } else {
            nothing()
        };
        (
            s.cycle_ended(),
            wait(
                first.push(failed(failure.error)).push(ready(s.status)).push(
                    EffectView::CycleEnd(s.cycle().report(now)),
                ),
            ),
        )
    }

    /// A client message meets the statement registry, and then needs an
    /// upstream connection.
    pub open spec fn enroll_step(self, m: wire::FrontendView, hint: Option<Seq<char>>) -> (
        PumpView,
        StepView,
    ) {
        match self.known_statement(m) {
            Some(name) => if self.registry[name].sql == m->Parse_sql {
                (self, wait(seq![EffectView::Send(wire::BackendView::ParseComplete)]))
            } else {
                (
                    PumpView { swallow: true, ..self.error_noted(duplicate_error(name)) },
                    wait(seq![failed(duplicate_error(name))]),
                )
            },
            None => if self.lease is Some {
                self.attached_step(m)
            } else {
                (
                    self,
                    StepView::Attach {
                        message: m,
                        sql_hint: match hint {
                            Some(sql) => Some(sql),
                            None => registry::bound_sql(m, self.registry),
                        },
                    },
                )
            },
        }
    }

    /// The name that `m` prepares, when the registry has a statement of that
    /// name already.
    pub open spec fn known_statement(self, m: wire::FrontendView) -> Option<Seq<char>> {
        match m {
            wire::FrontendView::Parse { name: Some(name), .. } => if name.len() > 0
                && self.registry.contains_key(name) {
                Some(name)
            } else {
                None
            },
            _ => None,
        }
    }

    /// A connection was attached for `m`. Attaching may have left session
    /// state on it.
    pub open spec fn attach_step(
        self,
        m: wire::FrontendView,
        endpoint: Seq<char>,
        status: TransactionStatus,
        dirtied: bool,
    ) -> (PumpView, StepView) {
        PumpView {
            lease: Some(status),
            endpoint: Some(endpoint),
            dirty: self.dirty || dirtied,
            ..self
        }.attached_step(m)
    }

    /// No connection could be attached.
    pub open spec fn attach_failed_step(self, message: Seq<char>) -> (PumpView, StepView) {
        (
            self,
            StepView::End {
                effects: seq![failed(attach_error(message))],
                end: EndView::ClientGone,
            },
        )
    }

    /// The state once the statement that `m` prepares or closes is recorded.
    pub open spec fn statement_recorded(self, m: wire::FrontendView) -> PumpView {
        match m {
            wire::FrontendView::Parse { name: Some(name), sql, type_oids } => if name.len() > 0 {
                PumpView {
                    registry: self.registry.insert(name, registry::StatementView { sql, type_oids }),
                    dirty: true,
                    ..self
                }
            } else {
                self
            },
            _ => self.statement_closed(m),
        }
    }

    /// `m` has an upstream connection.
    pub open spec fn attached_step(self, m: wire::FrontendView) -> (PumpView, StepView) {
        let s = PumpView { shown_attached: true, ..self.statement_recorded(m) };
        if self.hooks is Some {
            (s, StepView::Frontend { message: m })
        } else {
            s.forward_step(m)
        }
    }

    /// The raw client-message hook has answered.
    pub open spec fn frontend_step(
        self,
        m: wire::FrontendView,
        action: intercept::ActionView,
    ) -> (PumpView, StepView) {
        match action {
            intercept::ActionView::Forward => self.forward_step(m),
            intercept::ActionView::Reply(messages) => (
                self.reply_noted(messages),
                wait(sends(messages)),
            ),
            _ => (self, gone()),
        }
    }

    /// `m` goes upstream. `Query`, `Sync` and `Flush` start a response cycle;
    /// only kinds that can elicit a response are flushed.
    pub open spec fn forward_step(self, m: wire::FrontendView) -> (PumpView, StepView) {
        let starts = m.kind() == FrontendKind::Query || m.kind() == FrontendKind::Sync || m.kind()
            == FrontendKind::Flush;
        (
            PumpView {
                hygiene: Hygiene {
                    awaiting_response: self.hygiene.awaiting_response || starts,
                    copy: self.hygiene.copy,
                },
                ..self
            },
            StepView::Forward { message: m, flush: wire::elicits_response(m.kind()) },
        )
    }

    /// The message went upstream.
    pub open spec fn forwarded_step(self) -> (PumpView, StepView) {
        (
            PumpView {
                fed: (self.fed + 1) as u32,
                frontend: (self.frontend + 1) as u64,
                ..self
            },
            wait(nothing()),
        )
    }

    // ---- lost connections ----

    /// The failure that the error policy is asked about.
    pub open spec fn loss(self, cause: LossCause) -> intercept::UpstreamErrorView {
        intercept::UpstreamErrorView::ConnectionLost {
            endpoint: match self.endpoint {
                Some(e) => e,
                None => Seq::empty(),
            },
            message: match cause {
                LossCause::Send => "send failed"@,
                LossCause::Closed => "upstream closed unexpectedly"@,
            },
        }
    }

    /// The connection was lost. Without hooks there is no error policy to ask
    /// and the session is linked anew.
    pub open spec fn loss_step(self, cause: LossCause, now: Nanos) -> (PumpView, StepView) {
        if self.hooks is Some {
            (self, StepView::Lost { cause, error: self.loss(cause) })
        } else {
            self.lost_step(cause, RetryDecision::Relink, now)
        }
    }

    /// The error policy has decided about the lost connection.
    pub open spec fn lost_step(self, cause: LossCause, decision: RetryDecision, now: Nanos) -> (
        PumpView,
        StepView,
    ) {
        match decision {
            RetryDecision::Close => (
                self,
                StepView::End {
                    effects: nothing(),
                    end: EndView::UpstreamBroken(
                        match cause {
                            LossCause::Send => "upstream send failed"@,
                            LossCause::Closed => "upstream EOF"@,
                        },
                    ),
                },
            ),
            RetryDecision::Relink => {
                let interrupted = match cause {
                    LossCause::Send => self.hygiene.awaiting_response || self.fed > 0,
                    LossCause::Closed => self.hygiene.awaiting_response,
                };
                let first = if self.lease is Some {
                    seq![
                        EffectView::Destroy(
                            match cause {
                                LossCause::Send => "send failed"@,
                                LossCause::Closed => "upstream lost"@,
                            },
                        ),
                    ]
                } else {
                    nothing()
                };
                let s = PumpView {
                    lease: None,
                    endpoint: None,
                    shown_attached: false,
                    frontend: match cause {
                        LossCause::Send => (self.frontend + 1) as u64,
                        LossCause::Closed => self.frontend,
                    },
                    hygiene: Hygiene {
                        awaiting_response: false,
                        copy: self.hygiene.copy,
                    },
                    fed: 0,
                    ..self
                };
                if interrupted {
                    s.interrupted_step(first, now)
                } else {
                    (s, wait(first))
                }
            },
        }
    }

    /// The interrupted cycle is answered with an error: queries are never
    /// replayed. A simple cycle is ready at once, an extended one recovers
    /// until `Sync`.
    pub open spec fn interrupted_step(self, first: Seq<EffectView>, now: Nanos) -> (
        PumpView,
        StepView,
    ) {
        let effects = first.push(failed(lost_error()));
        if self.extended {
            (PumpView { swallow: true, ..self.error_noted(lost_error()) }, wait(effects))
        } else {
            let s = PumpView { status: TransactionStatus::Idle, ..self };
            if self.hooks is Some && self.cycle().active {
                let noted = s.error_noted(lost_error());
                (
                    noted.cycle_ended(),
                    wait(
                        effects.push(ready(TransactionStatus::Idle)).push(
                            EffectView::CycleEnd(noted.cycle().report(now)),
                        ),
                    ),
                )
            } else {
                (s, wait(effects.push(ready(TransactionStatus::Idle))))
            }
        }
    }

    // ---- server messages ----

    /// Something arrived from the attached connection.
    pub open spec fn upstream_step(self, event: wire::UpstreamEventView, now: Nanos) -> (
        PumpView,
        StepView,
    ) {
        match event {
            wire::UpstreamEventView::Closed => self.loss_step(LossCause::Closed, now),
            wire::UpstreamEventView::Broken(reason) => (
                self,
                StepView::End {
                    effects: nothing(),
                    end: EndView::UpstreamBroken("upstream error: "@ + reason),
                },
            ),
            wire::UpstreamEventView::Message(m) => {
                let s = self.noticed(m);
                if self.hooks is Some {
                    s.observe_step(m)
                } else {
                    s.deliver_step(m, now)
                }
            },
        }
    }

    /// The state once pool hygiene has taken note of `m`.
    pub open spec fn noticed(self, m: wire::BackendView) -> PumpView {
        match m {
            wire::BackendView::ReadyForQuery { status } => PumpView {
                lease: Some(status),
                status,
                hygiene: Hygiene { awaiting_response: false, copy: CopyCleanup::Inactive },
                fed: 0,
                ..self
            },
            wire::BackendView::ParameterStatus { name, value } => PumpView {
                overrides: self.overrides.insert(name, value),
                dirty: self.dirty || self.transaction_mode,
                ..self
            },
            _ => PumpView {
                hygiene: Hygiene {
                    awaiting_response: self.hygiene.awaiting_response,
                    copy: copy_state(self.hygiene.copy, m.kind()),
                },
                ..self
            },
        }
    }

    /// Schema tracking, telemetry, the row hook and count adjustment.
    pub open spec fn observe_step(self, m: wire::BackendView) -> (PumpView, StepView) {
        let h = self.hooks->0;
        match m {
            wire::BackendView::RowDescription { fields } => {
                let s = if h.wants_rows {
                    PumpView {
                        hooks: Some(HooksView { schema: intercept::schema_of(fields), ..h }),
                        ..self
                    }
                } else {
                    self
                };
                (s, StepView::Backend { message: m })
            },
            wire::BackendView::CommandComplete { tag } => {
                let shown = if h.adjust_counts && h.cycle.dropped_pending > 0 {
                    cycle::adjusted_tag(tag, h.cycle.dropped_pending as nat)
                } else {
                    tag
                };
                (
                    self.with_cycle(
                        cycle::TrackingView { tag: Some(tag), dropped_pending: 0, ..h.cycle },
                    ),
                    StepView::Backend {
                        message: wire::BackendView::CommandComplete { tag: shown },
                    },
                )
            },
            wire::BackendView::ErrorResponse { error } => (
                self.error_noted(error),
                StepView::Backend { message: m },
            ),
            wire::BackendView::DataRow { row } => {
                match intercept::decode_values(row.data, row.field_count as nat) {
                    Some(values) if h.wants_rows => (
                        self,
                        StepView::Row {
                            row: intercept::RowEditView { row, values, modified: false },
                        },
                    ),
                    _ => (self, StepView::Backend { message: m }),
                }
            },
            _ => (self, StepView::Backend { message: m }),
        }
    }

    /// The row hook has answered, perhaps with edits.
    pub open spec fn row_step(self, row: intercept::RowEditView, action: RowAction) -> (
        PumpView,
        StepView,
    ) {
        match action {
            RowAction::Keep => (
                self,
                StepView::Backend { message: wire::BackendView::DataRow { row: row.applied() } },
            ),
            RowAction::Drop => (
                self.with_cycle(
                    cycle::TrackingView {
                        dropped_total: (self.cycle().dropped_total + 1) as u64,
                        dropped_pending: (self.cycle().dropped_pending + 1) as u64,
                        ..self.cycle()
                    },
                ),
                wait(nothing()),
            ),
        }
    }

    /// The raw server-message hook has answered.
    pub open spec fn backend_step(
        self,
        m: wire::BackendView,
        action: intercept::ActionView,
        now: Nanos,
    ) -> (PumpView, StepView) {
        match action {
            intercept::ActionView::Forward => self.deliver_step(m, now),
            intercept::ActionView::Reply(messages) => (
                PumpView { backend: (self.backend + 1) as u64, ..self.reply_noted(messages) },
                wait(sends(messages)),
            ),
            _ => (self, gone()),
        }
    }

    /// `m` goes to the client. A row is counted, and `ReadyForQuery` ends the
    /// active cycle.
    pub open spec fn deliver_step(self, m: wire::BackendView, now: Nanos) -> (PumpView, StepView) {
        if m is ReadyForQuery && self.hooks is Some && self.cycle().active {
            (
                self.cycle_ended(),
                StepView::Deliver {
                    message: m,
                    delivery: DeliveryView {
                        ready: true,
                        report: Some(self.cycle().report(now)),
                    },
                },
            )
        } else {
            (
                if m is DataRow && self.hooks is Some {
                    self.row_noted()
                } else {
                    self
                },
                StepView::Deliver {
                    message: m,
                    delivery: DeliveryView { ready: m is ReadyForQuery, report: None },
                },
            )
        }
    }

    /// The message went to the client. At `ReadyForQuery` a draining session
    /// ends, and in transaction mode an idle session gives its connection
    /// back.
    pub open spec fn delivered_step(self, delivery: DeliveryView) -> (PumpView, StepView) {
        let s = PumpView { backend: (self.backend + 1) as u64, ..self };
        let effects = match delivery.report {
            Some(report) => seq![EffectView::CycleEnd(report)],
            None => nothing(),
        };
        if delivery.ready && self.draining {
            (s, StepView::End { effects, end: EndView::ClientGone })
        } else if delivery.ready && self.transaction_mode && self.lease == Some(
            TransactionStatus::Idle,
        ) {
            (
                PumpView { lease: None, dirty: false, shown_attached: false, ..s },
                wait(effects.push(EffectView::Release { dirty: self.dirty })),
            )
        } else {
            (s, wait(effects))
        }
    }

    // ---- shutdown ----

    /// The proxy shuts down: end now when idle, otherwise after the current
    /// cycle.
    pub open spec fn shutdown_step(self) -> (PumpView, StepView) {
        if self.hygiene.awaiting_response || self.hygiene.copy != CopyCleanup::Inactive {
            (PumpView { draining: true, ..self }, wait(nothing()))
        } else {
            (self, gone())
        }
    }
}

/// The COPY state after a server message of this kind.
pub open spec fn copy_state(before: CopyCleanup, kind: BackendKind) -> CopyCleanup {
    if kind == BackendKind::CopyInResponse || kind == BackendKind::CopyBothResponse {
        CopyCleanup::ClientOwesCopy
    } else if kind == BackendKind::CopyOutResponse {
        CopyCleanup::ServerStreamsCopy
    } else {
        before
    }
}

} // verus!
