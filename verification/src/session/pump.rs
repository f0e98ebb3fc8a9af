//! The message pump of a session.
//!
//! The pump decides; its caller performs. Every method takes one event (a
//! message from either side, or the outcome of the step asked for last) and
//! returns the next [`Step`], whose effects are performed first and in order.
//! When a message cannot be sent to the client the remaining effects are
//! dropped and the session ends with [`End::ClientGone`].

use vstd::prelude::*;

use crate::intercept;
use crate::intercept::{
    Action, CycleError, CycleKind, CycleReport, DataRowMut, QueryCycle, RetryDecision, RowAction,
    RowSchema, UpstreamError,
};
use crate::pool::{CopyCleanup, Hygiene};
use crate::scatter::{Merged, ScatterFailure, ScatterRequest};
use crate::session;
use crate::session::cycle;
use crate::session::cycle::CycleTracking;
use crate::session::model;
use crate::session::model::LossCause;
use crate::session::registry;
use crate::session::registry::StatementRegistry;
use crate::text;
use crate::textmap::TextMap;
use crate::time::Nanos;
use crate::wire;
use crate::wire::{
    BackendKind, BackendMessage, ErrorInfo, FrontendKind, FrontendMessage, TransactionStatus,
    UpstreamEvent,
};

verus! {

/// What a session does on its own before it takes its step.
pub enum Effect {
    /// Send a message to the client.
    Send(BackendMessage),
    /// Report an ended cycle to the hooks.
    CycleEnd(CycleReport),
    /// Close the upstream connection instead of returning it to its pool.
    Destroy(&'static str),
    /// Return the upstream connection to its pool; a dirty one is reset.
    Release { dirty: bool },
}

impl View for Effect {
    type V = model::EffectView;

    open spec fn view(&self) -> model::EffectView {
        match self {
            Effect::Send(m) => model::EffectView::Send(m@),
            Effect::CycleEnd(r) => model::EffectView::CycleEnd(r@),
            Effect::Destroy(reason) => model::EffectView::Destroy(reason@),
            Effect::Release { dirty } => model::EffectView::Release { dirty: *dirty },
        }
    }
}

/// The views of a list of effects.
pub open spec fn effect_views(effects: Seq<Effect>) -> Seq<model::EffectView> {
    effects.map_values(|e: Effect| e@)
}

/// Why a session ended.
#[derive(Debug)]
pub enum End {
    /// The client terminated, vanished or sent undecodable bytes. The
    /// upstream connection is healthy: checkin cleans up any leftover state.
    ClientGone,
    /// The upstream connection broke. Destroy it.
    UpstreamBroken(String),
}

impl View for End {
    type V = model::EndView;

    open spec fn view(&self) -> model::EndView {
        match self {
            End::ClientGone => model::EndView::ClientGone,
            End::UpstreamBroken(reason) => model::EndView::UpstreamBroken(reason@),
        }
    }
}

/// What is left to do once a message has been delivered to the client.
pub struct Delivery {
    ready: bool,
    report: Option<CycleReport>,
}

/// The view of an optional report.
pub open spec fn opt_report(r: Option<CycleReport>) -> Option<intercept::ReportView> {
    match r {
        Some(r) => Some(r@),
        None => None,
    }
}

impl View for Delivery {
    type V = model::DeliveryView;

    closed spec fn view(&self) -> model::DeliveryView {
        model::DeliveryView { ready: self.ready, report: opt_report(self.report) }
    }
}

/// What arrives from the client.
pub enum DownstreamEvent {
    /// The next message.
    Message(FrontendMessage),
    /// The connection was closed.
    Closed,
    /// The connection failed, or its bytes could not be decoded.
    Broken,
}

impl View for DownstreamEvent {
    type V = model::DownstreamEventView;

    open spec fn view(&self) -> model::DownstreamEventView {
        match self {
            DownstreamEvent::Message(m) => model::DownstreamEventView::Message(m@),
            DownstreamEvent::Closed => model::DownstreamEventView::Closed,
            DownstreamEvent::Broken => model::DownstreamEventView::Broken,
        }
    }
}

/// The step a session takes next.
pub enum Step {
    /// Wait for the next event.
    Wait { effects: Vec<Effect> },
    /// End the session.
    End { effects: Vec<Effect>, end: End },
    /// Ask the query hook about the cycle that the message starts.
    Query { message: FrontendMessage, cycle: QueryCycle },
    /// Run a scatter request.
    Scatter { request: ScatterRequest },
    /// Attach an upstream connection for the message, routed by the hint.
    Attach { message: FrontendMessage, sql_hint: Option<String> },
    /// Show the message to the raw client-message hook.
    Frontend { message: FrontendMessage },
    /// Hand the message to the upstream connection.
    Forward { message: FrontendMessage, flush: bool },
    /// Ask the error policy what to do about the lost connection.
    Lost { cause: LossCause, error: UpstreamError },
    /// Ask the row hook about a row.
    Row { row: DataRowMut },
    /// Show the message to the raw server-message hook.
    Backend { message: BackendMessage },
    /// Send the message to the client.
    Deliver { message: BackendMessage, delivery: Delivery },
}

impl View for Step {
    type V = model::StepView;

    open spec fn view(&self) -> model::StepView {
        match self {
            Step::Wait { effects } => model::StepView::Wait { effects: effect_views(effects@) },
            Step::End { effects, end } => model::StepView::End {
                effects: effect_views(effects@),
                end: end@,
            },
            Step::Query { message, cycle } => model::StepView::Query {
                message: message@,
                cycle: cycle@,
            },
            Step::Scatter { request } => model::StepView::Scatter { request: request@ },
            Step::Attach { message, sql_hint } => model::StepView::Attach {
                message: message@,
                sql_hint: text::opt_text(*sql_hint),
            },
            Step::Frontend { message } => model::StepView::Frontend { message: message@ },
            Step::Forward { message, flush } => model::StepView::Forward {
                message: message@,
                flush: *flush,
            },
            Step::Lost { cause, error } => model::StepView::Lost { cause: *cause, error: error@ },
            Step::Row { row } => model::StepView::Row { row: row@ },
            Step::Backend { message } => model::StepView::Backend { message: message@ },
            Step::Deliver { message, delivery } => model::StepView::Deliver {
                message: message@,
                delivery: delivery@,
            },
        }
    }
}

fn no_effects() -> (v: Vec<Effect>)
    ensures
        effect_views(v@) == model::nothing(),
{
    let v: Vec<Effect> = Vec::new();
    assert(effect_views(v@) =~= model::nothing());
    v
}

fn add_effect(v: &mut Vec<Effect>, e: Effect)
    ensures
        effect_views(final(v)@) == effect_views(old(v)@).push(e@),
{
    let ghost before = v@;
    v.push(e);
    assert(effect_views(v@) =~= effect_views(before).push(e@));
}

fn one_effect(e: Effect) -> (v: Vec<Effect>)
    ensures
        effect_views(v@) == seq![e@],
{
    let mut v = no_effects();
    add_effect(&mut v, e);
    assert(effect_views(v@) =~= seq![e@]);
    v
}

fn ready(status: TransactionStatus) -> (e: Effect)
    ensures
        e@ == model::ready(status),
{
    Effect::Send(BackendMessage::ReadyForQuery { status })
}

fn failed(error: ErrorInfo) -> (e: Effect)
    ensures
        e@ == model::failed(error@),
{
    Effect::Send(BackendMessage::ErrorResponse { error })
}

fn wait(effects: Vec<Effect>) -> (s: Step)
    ensures
        s@ == model::wait(effect_views(effects@)),
{
    Step::Wait { effects }
}

fn gone() -> (s: Step)
    ensures
        s@ == model::gone(),
{
    Step::End { effects: no_effects(), end: End::ClientGone }
}

fn lost_error() -> (e: ErrorInfo)
    ensures
        e@ == model::lost_error(),
{
    ErrorInfo::new("ERROR", "08006", "upstream connection lost")
}

fn duplicate_error(name: &str) -> (e: ErrorInfo)
    ensures
        e@ == model::duplicate_error(name@),
{
    let mut message = "prepared statement \"".to_owned();
    message.append(name);
    message.append("\" already exists (pgferry)");
    ErrorInfo::new("ERROR", "42P05", message.as_str())
}

/// Effects that send `messages`.
fn send_all(messages: Vec<BackendMessage>) -> (v: Vec<Effect>)
    ensures
        effect_views(v@) == model::sends(wire::backend_views(messages@)),
{
    let ghost views = wire::backend_views(messages@);
    let mut rest = messages;
    let mut reversed: Vec<Effect> = Vec::new();
    let mut v: Vec<Effect> = Vec::new();
    let ghost all = rest@;
    while rest.len() > 0
        invariant
            rest@.len() + reversed@.len() == all.len(),
            rest@ == all.take(rest@.len() as int),
            forall|j: int|
                0 <= j < reversed@.len() ==> #[trigger] reversed@[j] == Effect::Send(
                    all[all.len() - 1 - j],
                ),
        decreases rest.len(),
    {
        match rest.pop() {
            Some(m) => {
                reversed.push(Effect::Send(m));
            },
            None => {},
        }
    }
    while reversed.len() > 0
        invariant
            v@.len() + reversed@.len() == all.len(),
            forall|j: int|
                0 <= j < reversed@.len() ==> #[trigger] reversed@[j] == Effect::Send(
                    all[all.len() - 1 - j],
                ),
            forall|j: int| 0 <= j < v@.len() ==> #[trigger] v@[j] == Effect::Send(all[j]),
        decreases reversed.len(),
    {
        match reversed.pop() {
            Some(e) => {
                v.push(e);
            },
            None => {},
        }
    }
    assert(effect_views(v@) =~= model::sends(views));
    v
}

/// There are no more rows among the messages than messages.
proof fn lemma_count_rows(messages: Seq<wire::BackendView>)
    ensures
        model::count_rows(messages) <= messages.len(),
    decreases messages.len(),
{
    if messages.len() > 0 {
        lemma_count_rows(messages.drop_last());
    }
}

/// How many of the messages are rows, and the last command tag and the last
/// error among them.
fn tally(messages: &Vec<BackendMessage>) -> (r: (u64, Option<String>, Option<CycleError>))
    ensures
        r.0 == model::count_rows(wire::backend_views(messages@)),
        text::opt_text(r.1) == model::last_tag(wire::backend_views(messages@)),
        crate::intercept::opt_error(r.2) == model::last_error(wire::backend_views(messages@)),
{
    let ghost views = wire::backend_views(messages@);
    let mut rows: u64 = 0;
    let mut tag: Option<String> = None;
    let mut error: Option<CycleError> = None;
    let mut i: usize = 0;
    while i < messages.len()
        invariant
            i <= messages.len(),
            rows <= i,
            views == wire::backend_views(messages@),
            rows == model::count_rows(views.take(i as int)),
            text::opt_text(tag) == model::last_tag(views.take(i as int)),
            crate::intercept::opt_error(error) == model::last_error(views.take(i as int)),
        decreases messages.len() - i,
    {
        assert(views.take(i + 1).drop_last() == views.take(i as int));
        assert(views.take(i + 1).last() == messages@[i as int]@);
        match &messages[i] {
            BackendMessage::DataRow { .. } => {
                rows += 1;
            },
            BackendMessage::CommandComplete { tag: t } => {
                tag = Some(t.clone());
            },
            BackendMessage::ErrorResponse { error: e } => {
                error = Some(CycleError::from_info(e));
            },
            _ => {},
        }
        i += 1;
    }
    assert(views.take(messages.len() as int) == views);
    (rows, tag, error)
}

/// The state that hooks need.
struct Hooks {
    wants_rows: bool,
    adjust_counts: bool,
    schema: RowSchema,
    cycle: CycleTracking,
}

impl View for Hooks {
    type V = model::HooksView;

    closed spec fn view(&self) -> model::HooksView {
        model::HooksView {
            wants_rows: self.wants_rows,
            adjust_counts: self.adjust_counts,
            schema: self.schema@,
            cycle: self.cycle@,
        }
    }
}

/// The view of the hooks' state, when there are hooks.
closed spec fn opt_hooks(h: Option<Hooks>) -> Option<model::HooksView> {
    match h {
        Some(h) => Some(h@),
        None => None,
    }
}

/// What the hooks of a session want.
#[derive(Debug, Clone, Copy, PartialEq, Eq, Structural)]
pub struct HookWishes {
    /// The hooks want to see rows.
    pub wants_rows: bool,
    /// The hooks want command tags to count the rows that are left.
    pub adjust_counts: bool,
}

/// The decision state of a session.
pub struct Pump {
    transaction_mode: bool,
    hooks: Option<Hooks>,
    lease: Option<TransactionStatus>,
    status: TransactionStatus,
    endpoint: Option<String>,
    fed: u32,
    extended: bool,
    frontend: u64,
    backend: u64,
    hygiene: Hygiene,
    registry: StatementRegistry,
    overrides: TextMap<String>,
    dirty: bool,
    swallow: bool,
    draining: bool,
    shown_attached: bool,
}

/// The view of a map of texts.
pub open spec fn text_values(m: Map<Seq<char>, String>) -> Map<Seq<char>, Seq<char>> {
    m.map_values(|s: String| s@)
}

impl View for Pump {
    type V = model::PumpView;

    closed spec fn view(&self) -> model::PumpView {
        model::PumpView {
            transaction_mode: self.transaction_mode,
            hooks: opt_hooks(self.hooks),
            lease: self.lease,
            status: self.status,
            endpoint: text::opt_text(self.endpoint),
            fed: self.fed,
            extended: self.extended,
            frontend: self.frontend,
            backend: self.backend,
            hygiene: self.hygiene,
            registry: self.registry@,
            overrides: text_values(self.overrides@),
            dirty: self.dirty,
            swallow: self.swallow,
            draining: self.draining,
            shown_attached: self.shown_attached,
        }
    }
}

impl Pump {
    /// The state of a session that starts with this connection attached, or
    /// with none.
    pub open spec fn initial(
        transaction_mode: bool,
        wishes: Option<HookWishes>,
        attached: Option<(Seq<char>, TransactionStatus)>,
        now: Nanos,
    ) -> model::PumpView {
        model::PumpView {
            transaction_mode,
            hooks: match wishes {
                Some(w) => Some(
                    model::HooksView {
                        wants_rows: w.wants_rows,
                        adjust_counts: w.adjust_counts,
                        schema: Seq::empty(),
                        cycle: cycle::no_cycle(now),
                    },
                ),
                None => None,
            },
            lease: match attached {
                Some((_, status)) => Some(status),
                None => None,
            },
            status: TransactionStatus::Idle,
            endpoint: match attached {
                Some((endpoint, _)) => Some(endpoint),
                None => None,
            },
            fed: 0,
            extended: false,
            frontend: 0,
            backend: 0,
            hygiene: Hygiene { awaiting_response: false, copy: CopyCleanup::Inactive },
            registry: Map::empty(),
            overrides: Map::empty(),
            dirty: false,
            swallow: false,
            draining: false,
            shown_attached: attached is Some,
        }
    }

    /// A session that starts with this connection attached (endpoint and
    /// transaction state), or with none.
    pub fn new(
        transaction_mode: bool,
        wishes: Option<HookWishes>,
        attached: Option<(String, TransactionStatus)>,
        now: Nanos,
    ) -> (p: Pump)
        ensures
            p@ == Pump::initial(
                transaction_mode,
                wishes,
                match attached {
                    Some((endpoint, status)) => Some((endpoint@, status)),
                    None => None,
                },
                now,
            ),
    {
        let hooks = match wishes {
            Some(w) => Some(
                Hooks {
                    wants_rows: w.wants_rows,
                    adjust_counts: w.adjust_counts,
                    schema: RowSchema::default(),
                    cycle: CycleTracking::new(now),
                },
            ),
            None => None,
        };
        let shown_attached = attached.is_some();
        let (endpoint, lease) = match attached {
            Some((endpoint, status)) => (Some(endpoint), Some(status)),
            None => (None, None),
        };
        let p = Pump {
            transaction_mode,
            hooks,
            lease,
            status: TransactionStatus::Idle,
            endpoint,
            fed: 0,
            extended: false,
            frontend: 0,
            backend: 0,
            hygiene: Hygiene { awaiting_response: false, copy: CopyCleanup::Inactive },
            registry: StatementRegistry::new(),
            overrides: TextMap::new(),
            dirty: false,
            swallow: false,
            draining: false,
            shown_attached,
        };
        assert(text_values(p.overrides@) =~= Map::<Seq<char>, Seq<char>>::empty());
        p
    }

    // ---- what the caller reads ----

    /// Whether every counter can count one more.
    pub fn has_room(&self) -> (r: bool)
        ensures
            r == self@.has_room(),
    {
        self.fed < u32::MAX && self.frontend < u64::MAX && self.backend < u64::MAX
            && match &self.hooks {
            Some(h) => h.cycle.rows < u64::MAX && h.cycle.dropped_pending < u64::MAX
                && h.cycle.dropped_total < u64::MAX,
            None => true,
        }
    }

    /// Whether the count of rows sent can take in those among the messages.
    pub fn has_room_for(&self, messages: &Vec<BackendMessage>) -> (r: bool)
        ensures
            r == self@.has_room_for(wire::backend_views(messages@)),
    {
        match &self.hooks {
            Some(h) => {
                let (rows, _, _) = tally(messages);
                rows <= u64::MAX - h.cycle.rows
            },
            None => true,
        }
    }

    /// The transaction state of the attached connection, when one is
    /// attached.
    pub fn lease(&self) -> (r: Option<TransactionStatus>)
        ensures
            r == self@.lease,
    {
        self.lease
    }

    /// The transaction state that the client last saw.
    pub fn status(&self) -> (r: TransactionStatus)
        ensures
            r == self@.status,
    {
        self.status
    }

    /// The endpoint of the attached connection.
    pub fn endpoint(&self) -> (r: Option<&str>)
        ensures
            text::opt_str(r) == self@.endpoint,
    {
        match &self.endpoint {
            Some(e) => Some(e.as_str()),
            None => None,
        }
    }

    /// How many client and server messages were forwarded.
    pub fn counts(&self) -> (r: (u64, u64))
        ensures
            r == (self@.frontend, self@.backend),
    {
        (self.frontend, self.backend)
    }

    /// What checkin has to clean up if the session ended now.
    pub fn hygiene(&self) -> (r: Hygiene)
        ensures
            r == self@.hygiene,
    {
        self.hygiene
    }

    /// The session's named statements.
    pub fn registry(&self) -> (r: &StatementRegistry)
        ensures
            r@ == self@.registry,
    {
        &self.registry
    }

    /// The parameter values that the session has set.
    pub fn overrides(&self) -> (r: &TextMap<String>)
        ensures
            text_values(r@) == self@.overrides,
    {
        &self.overrides
    }

    /// Whether the session shows as attached to an upstream connection.
    pub fn shown_attached(&self) -> (r: bool)
        ensures
            r == self@.shown_attached,
    {
        self.shown_attached
    }

    /// The current result-set schema, when there are hooks.
    pub fn schema(&self) -> (r: Option<&RowSchema>)
        ensures
            match r {
                Some(s) => self@.hooks is Some && s@ == self@.hooks->0.schema,
                None => self@.hooks is None,
            },
    {
        match &self.hooks {
            Some(h) => Some(&h.schema),
            None => None,
        }
    }

    fn lease_status(&self) -> (r: TransactionStatus)
        ensures
            r == self@.lease_status(),
    {
        match self.lease {
            Some(s) => s,
            None => TransactionStatus::Idle,
        }
    }

    fn cycle_active(&self) -> (r: bool)
        ensures
            r == (self@.hooks is Some && self@.cycle().active),
    {
        match &self.hooks {
            Some(h) => h.cycle.active,
            None => false,
        }
    }

    // ---- telemetry ----

    /// End the active cycle.
    fn end_cycle(&mut self, now: Nanos) -> (r: CycleReport)
        requires
            old(self)@.hooks is Some,
        ensures
            r@ == old(self)@.cycle().report(now),
            final(self)@ == old(self)@.cycle_ended(),
    {
        let mut hooks: Option<Hooks> = None;
        std::mem::swap(&mut hooks, &mut self.hooks);
        match hooks {
            Some(h) => {
                let mut h = h;
                let r = h.cycle.finish(now);
                self.hooks = Some(h);
                r
            },
            None => {
                assert(false);
                CycleTracking::new(now).finish(now)
            },
        }
    }

    /// Start a cycle.
    fn start_cycle(&mut self, sql: Option<String>, kind: CycleKind, now: Nanos)
        requires
            old(self)@.hooks is Some,
        ensures
            final(self)@ == old(self)@.with_cycle(
                cycle::fresh_cycle(text::opt_text(sql), kind@, now),
            ),
    {
        match &mut self.hooks {
            Some(h) => {
                h.cycle.start(sql, kind, now);
            },
            None => {},
        }
    }

    /// Note an error in the telemetry.
    fn note_error(&mut self, error: &ErrorInfo)
        ensures
            final(self)@ == old(self)@.error_noted(error@),
    {
        match &mut self.hooks {
            Some(h) => {
                h.cycle.error = Some(CycleError::from_info(error));
            },
            None => {},
        }
    }

    /// Note a row sent to the client in the telemetry.
    fn note_row(&mut self)
        requires
            old(self)@.has_room(),
        ensures
            final(self)@ == (if old(self)@.hooks is Some {
                old(self)@.row_noted()
            } else {
                old(self)@
            }),
    {
        match &mut self.hooks {
            Some(h) => {
                h.cycle.rows = h.cycle.rows + 1;
            },
            None => {},
        }
    }

    /// Note messages that a hook sent to the client in the telemetry.
    fn note_reply(&mut self, messages: &Vec<BackendMessage>)
        requires
            old(self)@.has_room_for(wire::backend_views(messages@)),
        ensures
            final(self)@ == old(self)@.reply_noted(wire::backend_views(messages@)),
    {
        match &mut self.hooks {
            Some(h) => {
                let (rows, tag, error) = tally(messages);
                h.cycle.rows = h.cycle.rows + rows;
                if tag.is_some() {
                    h.cycle.tag = tag;
                }
                if error.is_some() {
                    h.cycle.error = error;
                }
            },
            None => {},
        }
    }

    /// Note the rows and the tag of a merged answer.
    fn note_answer(&mut self, rows: u64, tag: Option<String>)
        requires
            old(self)@.hooks is Some,
        ensures
            final(self)@ == old(self)@.with_cycle(
                (cycle::TrackingView { rows, tag: text::opt_text(tag), ..old(self)@.cycle() }),
            ),
    {
        match &mut self.hooks {
            Some(h) => {
                h.cycle.rows = rows;
                h.cycle.tag = tag;
            },
            None => {},
        }
    }

    // ---- client messages ----

    /// Something arrived from the client.
    pub fn on_downstream(&mut self, event: DownstreamEvent, now: Nanos) -> (step: Step)
        ensures
            (final(self)@, step@) == old(self)@.downstream_step(event@, now),
    {
        let message = match event {
            DownstreamEvent::Message(m) => m,
            DownstreamEvent::Closed => {
                return gone();
            },
            DownstreamEvent::Broken => {
                return gone();
            },
        };
        if let FrontendMessage::Terminate = message {
            return gone();
        }
        if self.swallow {
            return self.swallow(message, now);
        }
        if self.transaction_mode && self.lease.is_none() {
            match &message {
                FrontendMessage::Sync => {
                    let mut effects = one_effect(ready(self.status));
                    if self.cycle_active() {
                        let report = self.end_cycle(now);
                        add_effect(&mut effects, Effect::CycleEnd(report));
                        assert(effect_views(effects@) =~= seq![
                            model::ready(old(self)@.status),
                            model::EffectView::CycleEnd(report@),
                        ]);
                    }
                    return wait(effects);
                },
                FrontendMessage::Flush => {
                    return wait(no_effects());
                },
                FrontendMessage::Close { .. } => {
                    self.forget_closed(&message);
                    return wait(one_effect(Effect::Send(BackendMessage::CloseComplete)));
                },
                _ => {},
            }
        }
        self.take_message(message)
    }

    /// A client message while the session recovers from an injected error.
    fn swallow(&mut self, message: FrontendMessage, now: Nanos) -> (step: Step)
        ensures
            (final(self)@, step@) == old(self)@.swallow_step(message@, now),
    {
        match message {
            FrontendMessage::Sync => {
                self.swallow = false;
                let mut effects = one_effect(ready(self.lease_status()));
                if self.hooks.is_some() {
                    let report = self.end_cycle(now);
                    add_effect(&mut effects, Effect::CycleEnd(report));
                    assert(effect_views(effects@) =~= seq![
                        model::ready(old(self)@.lease_status()),
                        model::EffectView::CycleEnd(report@),
                    ]);
                }
                wait(effects)
            },
            _ => wait(no_effects()),
        }
    }

    /// Forget the statement that `message` closes.
    fn forget_closed(&mut self, message: &FrontendMessage)
        ensures
            final(self)@ == old(self)@.statement_closed(message@),
    {
        match message {
            FrontendMessage::Close { target, name: Some(name) } => {
                if *target == wire::CLOSE_STATEMENT {
                    self.registry.record_close(name.as_str());
                }
            },
            _ => {},
        }
    }

    /// A client message that goes on its way upstream.
    fn take_message(&mut self, message: FrontendMessage) -> (step: Step)
        ensures
            (final(self)@, step@) == old(self)@.message_step(message@),
    {
        match cycle::cycle_input_of(&message) {
            Some(input) => {
                self.extended = input.kind.is_extended();
                if self.hooks.is_some() {
                    Step::Query { message, cycle: QueryCycle::new(input.sql, input.kind) }
                } else {
                    self.enroll(message, Some(input.sql))
                }
            },
            None => self.enroll(message, None),
        }
    }

    /// The query hook has answered about the cycle that `message` starts.
    /// `asked` is the cycle as the hook left it.
    pub fn on_query_action(
        &mut self,
        message: FrontendMessage,
        asked: QueryCycle,
        action: Action,
        now: Nanos,
    ) -> (step: Step)
        requires
            old(self)@.hooks is Some,
            cycle::input_of(message@) is Some,
        ensures
            (final(self)@, step@) == old(self)@.query_step(message@, asked@, action@, now),
    {
        let (sql, kind) = match cycle::cycle_input_of(&message) {
            Some(input) => (input.sql, input.kind),
            None => {
                return gone();
            },
        };
        let extended = kind.is_extended();
        let mut asked = asked;
        let message = cycle::apply_rewrite(message, asked.take_rewritten());
        let shown = cycle::cycle_sql_of(&message);
        match action {
            Action::Forward => {
                self.start_cycle(shown, kind, now);
                self.enroll(message, Some(sql))
            },
            Action::Deny(error) => {
                self.start_cycle(shown, kind, now);
                self.refuse(extended, error, now)
            },
            Action::Reply(messages) => {
                self.start_cycle(shown, kind, now);
                proof {
                    lemma_count_rows(wire::backend_views(messages@));
                    assert(wire::backend_views(messages@).len() == messages.len());
                }
                self.note_reply(&messages);
                let mut effects = send_all(messages);
                if extended {
                    add_effect(&mut effects, ready(self.lease_status()));
                    self.swallow = true;
                    wait(effects)
                } else {
                    self.answer(false, effects, now)
                }
            },
            Action::Scatter(request) => {
                self.start_cycle(shown, kind, now);
                if extended {
                    let error = ErrorInfo::new(
                        "ERROR",
                        "0A000",
                        "pgferry scatter: simple protocol only",
                    );
                    self.refuse(false, error, now)
                } else if self.status != TransactionStatus::Idle {
                    let error = ErrorInfo::new(
                        "ERROR",
                        "0A000",
                        "pgferry scatter: not allowed inside a transaction",
                    );
                    self.refuse(false, error, now)
                } else {
                    Step::Scatter { request }
                }
            },
            Action::Close => gone(),
        }
    }

    /// A cycle has been answered locally with `effects`.
    fn answer(&mut self, recovers: bool, effects: Vec<Effect>, now: Nanos) -> (step: Step)
        requires
            old(self)@.hooks is Some,
        ensures
            (final(self)@, step@) == old(self)@.answered(recovers, effect_views(effects@), now),
    {
        let mut effects = effects;
        if recovers {
            self.swallow = true;
        } else {
            add_effect(&mut effects, ready(self.lease_status()));
            let report = self.end_cycle(now);
            add_effect(&mut effects, Effect::CycleEnd(report));
        }
        wait(effects)
    }

    /// A cycle has been refused with `error`.
    fn refuse(&mut self, recovers: bool, error: ErrorInfo, now: Nanos) -> (step: Step)
        requires
            old(self)@.hooks is Some,
        ensures
            (final(self)@, step@) == old(self)@.refused(recovers, error@, now),
    {
        self.note_error(&error);
        self.answer(recovers, one_effect(failed(error)), now)
    }

    /// The scatter request with this command tag has been run.
    pub fn on_scattered(
        &mut self,
        tag: &str,
        outcome: Result<Merged, ScatterFailure>,
        now: Nanos,
    ) -> (step: Step)
        requires
            old(self)@.hooks is Some,
        ensures
            (final(self)@, step@) == (match outcome {
                Ok(merged) => old(self)@.scatter_merged(tag@, merged@, now),
                Err(failure) => old(self)@.scatter_failed(failure@, now),
            }),
    {
        match outcome {
            Ok(merged) => {
                self.note_session_leg(merged.session_status);
                let mut shown = tag.to_owned();
                shown.append(" ");
                text::push_decimal(&mut shown, merged.rows as u128);
                self.note_answer(merged.rows, Some(shown));
                let mut effects = send_all(merged.messages);
                add_effect(&mut effects, ready(self.status));
                let report = self.end_cycle(now);
                add_effect(&mut effects, Effect::CycleEnd(report));
                wait(effects)
            },
            Err(failure) => self.fail_scatter(failure, now),
        }
    }

    fn note_session_leg(&mut self, status: Option<TransactionStatus>)
        ensures
            final(self)@ == old(self)@.session_leg(status),
    {
        match status {
            Some(s) => {
                if self.lease.is_some() {
                    self.lease = Some(s);
                }
            },
            None => {},
        }
    }

    fn fail_scatter(&mut self, failure: ScatterFailure, now: Nanos) -> (step: Step)
        requires
            old(self)@.hooks is Some,
        ensures
            (final(self)@, step@) == old(self)@.scatter_failed(failure@, now),
    {
        let mut effects = no_effects();
        if failure.session_lease_broken && self.lease.is_some() {
            self.lease = None;
            self.endpoint = None;
            add_effect(&mut effects, Effect::Destroy("scatter: session shard failed"));
            assert(effect_views(effects@) =~= seq![
                model::EffectView::Destroy("scatter: session shard failed"@),
            ]);
        } else {
            self.note_session_leg(failure.session_status);
        }
        self.shown_attached = self.lease.is_some();
        self.status = self.lease_status();
        self.note_error(&failure.error);
        add_effect(&mut effects, failed(failure.error));
        add_effect(&mut effects, ready(self.status));
        let report = self.end_cycle(now);
        add_effect(&mut effects, Effect::CycleEnd(report));
        wait(effects)
    }

    /// A client message meets the statement registry, and then needs an
    /// upstream connection.
    ///
    /// A new statement is recorded only once a connection is attached: the
    /// attach replays the registry, and a new statement must not be replayed
    /// and then forwarded as well.
    fn enroll(&mut self, message: FrontendMessage, hint: Option<String>) -> (step: Step)
        ensures
            (final(self)@, step@) == old(self)@.enroll_step(message@, text::opt_text(hint)),
    {
        if let FrontendMessage::Parse { name: Some(name), sql, .. } = &message {
            if !text::is_blank(name.as_str()) {
                match self.registry.lookup(name.as_str()) {
                    Some(known) => {
                        if text::same_text(known.sql.as_str(), sql.as_str()) {
                            return wait(one_effect(Effect::Send(BackendMessage::ParseComplete)));
                        }
                        let error = duplicate_error(name.as_str());
                        self.note_error(&error);
                        self.swallow = true;
                        return wait(one_effect(failed(error)));
                    },
                    None => {},
                }
            }
        }
        if self.lease.is_some() {
            self.take_attached(message)
        } else {
            let sql_hint = match hint {
                Some(sql) => Some(sql),
                None => registry::bind_statement_sql(&message, &self.registry),
            };
            Step::Attach { message, sql_hint }
        }
    }

    /// A connection to `endpoint` was attached for `message`. It is in the
    /// transaction state `status`; `dirtied` says that attaching left session
    /// state on it.
    pub fn on_attached(
        &mut self,
        message: FrontendMessage,
        endpoint: String,
        status: TransactionStatus,
        dirtied: bool,
    ) -> (step: Step)
        ensures
            (final(self)@, step@) == old(self)@.attach_step(
                message@,
                endpoint@,
                status,
                dirtied,
            ),
    {
        self.lease = Some(status);
        self.endpoint = Some(endpoint);
        self.dirty = self.dirty || dirtied;
        self.take_attached(message)
    }

    /// No connection could be attached; the client is told why.
    pub fn on_attach_failed(&mut self, message: &str) -> (step: Step)
        ensures
            (final(self)@, step@) == old(self)@.attach_failed_step(message@),
    {
        let error = session::attach_failure(message);
        Step::End { effects: one_effect(failed(error)), end: End::ClientGone }
    }

    /// `message` has an upstream connection.
    fn take_attached(&mut self, message: FrontendMessage) -> (step: Step)
        ensures
            (final(self)@, step@) == old(self)@.attached_step(message@),
    {
        match &message {
            FrontendMessage::Parse { name: Some(name), sql, type_oids } => {
                if !text::is_blank(name.as_str()) {
                    self.registry.record_parse(
                        name.as_str(),
                        sql.clone(),
                        text::copy_u32s(type_oids),
                    );
                    self.dirty = true;
                }
            },
            _ => {
                self.forget_closed(&message);
            },
        }
        self.shown_attached = true;
        if self.hooks.is_some() {
            Step::Frontend { message }
        } else {
            self.forward(message)
        }
    }

    /// The raw client-message hook has answered; `message` is the message as
    /// the hook left it. Denials and scatters are honored from the query hook
    /// only: here they end the session.
    pub fn on_frontend_action(&mut self, message: FrontendMessage, action: Action) -> (step: Step)
        requires
            action@ matches crate::intercept::ActionView::Reply(messages) ==> old(
                self,
            )@.has_room_for(messages),
        ensures
            (final(self)@, step@) == old(self)@.frontend_step(message@, action@),
    {
        match action {
            Action::Forward => self.forward(message),
            Action::Reply(messages) => {
                self.note_reply(&messages);
                wait(send_all(messages))
            },
            _ => gone(),
        }
    }

    /// `message` goes upstream.
    fn forward(&mut self, message: FrontendMessage) -> (step: Step)
        ensures
            (final(self)@, step@) == old(self)@.forward_step(message@),
    {
        let kind = message.kind();
        if kind == FrontendKind::Query || kind == FrontendKind::Sync || kind == FrontendKind::Flush {
            self.hygiene = Hygiene { awaiting_response: true, copy: self.hygiene.copy };
        }
        let flush = wire::triggers_response(kind);
        Step::Forward { message, flush }
    }

    /// The message went upstream.
    pub fn on_forwarded(&mut self) -> (step: Step)
        requires
            old(self)@.has_room(),
        ensures
            (final(self)@, step@) == old(self)@.forwarded_step(),
    {
        self.fed = self.fed + 1;
        self.frontend = self.frontend + 1;
        wait(no_effects())
    }

    /// The message could not be sent upstream.
    pub fn on_forward_failed(&mut self, now: Nanos) -> (step: Step)
        requires
            old(self)@.has_room(),
        ensures
            (final(self)@, step@) == old(self)@.loss_step(LossCause::Send, now),
    {
        self.lose(LossCause::Send, now)
    }

    // ---- lost connections ----

    /// The connection was lost.
    fn lose(&mut self, cause: LossCause, now: Nanos) -> (step: Step)
        requires
            old(self)@.has_room(),
        ensures
            (final(self)@, step@) == old(self)@.loss_step(cause, now),
    {
        if self.hooks.is_some() {
            let endpoint = match &self.endpoint {
                Some(e) => e.clone(),
                None => String::new(),
            };
            let message = match cause {
                LossCause::Send => "send failed".to_owned(),
                LossCause::Closed => "upstream closed unexpectedly".to_owned(),
            };
            Step::Lost { cause, error: UpstreamError::ConnectionLost { endpoint, message } }
        } else {
            self.on_lost(cause, RetryDecision::Relink, now)
        }
    }

    /// The error policy has decided about the lost connection.
    pub fn on_lost(&mut self, cause: LossCause, decision: RetryDecision, now: Nanos) -> (step: Step)
        requires
            old(self)@.has_room(),
        ensures
            (final(self)@, step@) == old(self)@.lost_step(cause, decision, now),
    {
        match decision {
            RetryDecision::Close => {
                let reason = match cause {
                    LossCause::Send => "upstream send failed".to_owned(),
                    LossCause::Closed => "upstream EOF".to_owned(),
                };
                Step::End { effects: no_effects(), end: End::UpstreamBroken(reason) }
            },
            RetryDecision::Relink => {
                let interrupted = match cause {
                    LossCause::Send => self.hygiene.awaiting_response || self.fed > 0,
                    LossCause::Closed => self.hygiene.awaiting_response,
                };
                let mut effects = no_effects();
                if self.lease.is_some() {
                    let reason: &'static str = match cause {
                        LossCause::Send => "send failed",
                        LossCause::Closed => "upstream lost",
                    };
                    effects = one_effect(Effect::Destroy(reason));
                }
                self.lease = None;
                self.endpoint = None;
                self.shown_attached = false;
                if cause == LossCause::Send {
                    self.frontend = self.frontend + 1;
                }
                self.hygiene = Hygiene { awaiting_response: false, copy: self.hygiene.copy };
                self.fed = 0;
                if interrupted {
                    self.answer_interrupted(effects, now)
                } else {
                    wait(effects)
                }
            },
        }
    }

    /// Answer the interrupted cycle with an error.
    fn answer_interrupted(&mut self, first: Vec<Effect>, now: Nanos) -> (step: Step)
        ensures
            (final(self)@, step@) == old(self)@.interrupted_step(effect_views(first@), now),
    {
        let mut effects = first;
        let error = lost_error();
        if self.extended {
            self.note_error(&error);
            self.swallow = true;
            add_effect(&mut effects, failed(error));
        } else {
            self.status = TransactionStatus::Idle;
            if self.cycle_active() {
                self.note_error(&error);
                add_effect(&mut effects, failed(error));
                add_effect(&mut effects, ready(TransactionStatus::Idle));
                let report = self.end_cycle(now);
                add_effect(&mut effects, Effect::CycleEnd(report));
            } else {
                add_effect(&mut effects, failed(error));
                add_effect(&mut effects, ready(TransactionStatus::Idle));
            }
        }
        wait(effects)
    }

    // ---- server messages ----

    /// Something arrived from the attached connection.
    pub fn on_upstream(&mut self, event: UpstreamEvent, now: Nanos) -> (step: Step)
        requires
            old(self)@.has_room(),
            old(self)@.decodes_rows() ==> (event@ matches wire::UpstreamEventView::Message(
                wire::BackendView::DataRow { row },
            ) ==> row.field_count >= 0),
        ensures
            (final(self)@, step@) == old(self)@.upstream_step(event@, now),
    {
        match event {
            UpstreamEvent::Closed => self.lose(LossCause::Closed, now),
            UpstreamEvent::Broken(reason) => {
                let mut text = "upstream error: ".to_owned();
                text.append(reason.as_str());
                Step::End { effects: no_effects(), end: End::UpstreamBroken(text) }
            },
            UpstreamEvent::Message(message) => {
                self.notice(&message);
                if self.hooks.is_some() {
                    self.observe(message)
                } else {
                    self.deliver(message, now)
                }
            },
        }
    }

    /// Take note of a server message for pool hygiene and session state.
    fn notice(&mut self, message: &BackendMessage)
        ensures
            final(self)@ == old(self)@.noticed(message@),
    {
        match message {
            BackendMessage::ReadyForQuery { status } => {
                self.lease = Some(*status);
                self.status = *status;
                self.hygiene = Hygiene { awaiting_response: false, copy: CopyCleanup::Inactive };
                self.fed = 0;
            },
            BackendMessage::ParameterStatus { name, value } => {
                let ghost before = self.overrides@;
                self.overrides.insert(name.clone(), value.clone());
                assert(text_values(self.overrides@) =~= text_values(before).insert(name@, value@));
                if self.transaction_mode {
                    self.dirty = true;
                }
            },
            _ => {
                let copy = match message.kind() {
                    BackendKind::CopyInResponse => CopyCleanup::ClientOwesCopy,
                    BackendKind::CopyBothResponse => CopyCleanup::ClientOwesCopy,
                    BackendKind::CopyOutResponse => CopyCleanup::ServerStreamsCopy,
                    _ => self.hygiene.copy,
                };
                self.hygiene = Hygiene {
                    awaiting_response: self.hygiene.awaiting_response,
                    copy,
                };
            },
        }
    }

    /// Schema tracking, telemetry, the row hook and count adjustment.
    fn observe(&mut self, message: BackendMessage) -> (step: Step)
        requires
            old(self)@.hooks is Some,
            old(self)@.has_room(),
            old(self)@.decodes_rows() ==> (message@ matches wire::BackendView::DataRow { row }
                ==> row.field_count >= 0),
        ensures
            (final(self)@, step@) == old(self)@.observe_step(message@),
    {
        match message {
            BackendMessage::RowDescription { fields } => {
                match &mut self.hooks {
                    Some(h) => {
                        if h.wants_rows {
                            h.schema = RowSchema::from_row_description(&fields);
                        }
                    },
                    None => {},
                }
                Step::Backend { message: BackendMessage::RowDescription { fields } }
            },
            BackendMessage::CommandComplete { tag } => {
                let mut shown = tag.clone();
                match &mut self.hooks {
                    Some(h) => {
                        if h.adjust_counts && h.cycle.dropped_pending > 0 {
                            shown = cycle::adjust_tag(tag.as_str(), h.cycle.dropped_pending);
                        }
                        h.cycle.tag = Some(tag);
                        h.cycle.dropped_pending = 0;
                    },
                    None => {},
                }
                Step::Backend { message: BackendMessage::CommandComplete { tag: shown } }
            },
            BackendMessage::ErrorResponse { error } => {
                self.note_error(&error);
                Step::Backend { message: BackendMessage::ErrorResponse { error } }
            },
            BackendMessage::DataRow { row } => {
                let wants_rows = match &self.hooks {
                    Some(h) => h.wants_rows,
                    None => false,
                };
                if !wants_rows {
                    return Step::Backend { message: BackendMessage::DataRow { row } };
                }
                match DataRowMut::parse(row) {
                    Ok(row) => Step::Row { row },
                    Err((row, _)) => Step::Backend { message: BackendMessage::DataRow { row } },
                }
            },
            other => Step::Backend { message: other },
        }
    }

    /// The row hook has answered; `row` is the row as the hook left it.
    pub fn on_row_action(&mut self, row: DataRowMut, action: RowAction) -> (step: Step)
        requires
            old(self)@.hooks is Some,
            old(self)@.has_room(),
        ensures
            (final(self)@, step@) == old(self)@.row_step(row@, action),
    {
        match action {
            RowAction::Keep => Step::Backend {
                message: BackendMessage::DataRow { row: row.apply() },
            },
            RowAction::Drop => {
                match &mut self.hooks {
                    Some(h) => {
                        h.cycle.dropped_total = h.cycle.dropped_total + 1;
                        h.cycle.dropped_pending = h.cycle.dropped_pending + 1;
                    },
                    None => {},
                }
                wait(no_effects())
            },
        }
    }

    /// The raw server-message hook has answered; `message` is the message as
    /// the hook left it. Denials and scatters are honored from the query hook
    /// only: here they end the session.
    pub fn on_backend_action(
        &mut self,
        message: BackendMessage,
        action: Action,
        now: Nanos,
    ) -> (step: Step)
        requires
            old(self)@.has_room(),
            action@ matches crate::intercept::ActionView::Reply(messages) ==> old(
                self,
            )@.has_room_for(messages),
        ensures
            (final(self)@, step@) == old(self)@.backend_step(message@, action@, now),
    {
        match action {
            Action::Forward => self.deliver(message, now),
            Action::Reply(messages) => {
                self.note_reply(&messages);
                self.backend = self.backend + 1;
                wait(send_all(messages))
            },
            _ => gone(),
        }
    }

    /// `message` goes to the client.
    fn deliver(&mut self, message: BackendMessage, now: Nanos) -> (step: Step)
        requires
            old(self)@.has_room(),
        ensures
            (final(self)@, step@) == old(self)@.deliver_step(message@, now),
    {
        let ready = match &message {
            BackendMessage::ReadyForQuery { .. } => true,
            BackendMessage::DataRow { .. } => {
                self.note_row();
                false
            },
            _ => false,
        };
        let report = if ready && self.cycle_active() {
            Some(self.end_cycle(now))
        } else {
            None
        };
        Step::Deliver { message, delivery: Delivery { ready, report } }
    }

    /// The message went to the client.
    pub fn on_delivered(&mut self, delivery: Delivery) -> (step: Step)
        requires
            old(self)@.has_room(),
        ensures
            (final(self)@, step@) == old(self)@.delivered_step(delivery@),
    {
        self.backend = self.backend + 1;
        let mut effects = no_effects();
        match delivery.report {
            Some(report) => {
                effects = one_effect(Effect::CycleEnd(report));
            },
            None => {},
        }
        if delivery.ready && self.draining {
            return Step::End { effects, end: End::ClientGone };
        }
        if delivery.ready && self.transaction_mode && self.lease == Some(TransactionStatus::Idle) {
            add_effect(&mut effects, Effect::Release { dirty: self.dirty });
            self.lease = None;
            self.dirty = false;
            self.shown_attached = false;
        }
        wait(effects)
    }

    // ---- the rest ----

    /// A message could not be sent to the client.
    pub fn on_downstream_gone(&mut self) -> (step: Step)
        ensures
            (final(self)@, step@) == (old(self)@, model::gone()),
    {
        gone()
    }

    /// The client asked to cancel. Returns whether there is a connection to
    /// cancel on: while detached there is no query, and the cancel does
    /// nothing.
    pub fn on_cancel(&self) -> (r: bool)
        ensures
            r == (self@.lease is Some),
    {
        self.lease.is_some()
    }

    /// The proxy shuts down.
    pub fn on_shutdown(&mut self) -> (step: Step)
        ensures
            (final(self)@, step@) == old(self)@.shutdown_step(),
    {
        if self.hygiene.awaiting_response || self.hygiene.copy != CopyCleanup::Inactive {
            self.draining = true;
            wait(no_effects())
        } else {
            gone()
        }
    }
}

} // verus!
