//! What a client, a server and a gateway can count on: the outcome of each
//! event, in terms of what arrived and what the session then sends.

use vstd::prelude::*;

use crate::intercept;
use crate::intercept::{RetryDecision, RowAction};
use crate::pool::{CopyCleanup, Hygiene};
use crate::scatter;
use crate::session::cycle;
use crate::session::model;
use crate::session::model::{EffectView, EndView, LossCause, PumpView, StepView};
use crate::session::pump;
use crate::session::registry;
use crate::text;
use crate::time::Nanos;
use crate::wire;
use crate::wire::{BackendKind, BackendView, FrontendKind, FrontendView, TransactionStatus};

verus! {

// ---------------------------------------------------------------------------
// the server's word on transactions
// ---------------------------------------------------------------------------

/// What the server says with a message.
pub open spec fn server_says(m: BackendView) -> wire::UpstreamEventView {
    wire::UpstreamEventView::Message(m)
}

/// What the client sends.
pub open spec fn client_sends(m: FrontendView) -> model::DownstreamEventView {
    model::DownstreamEventView::Message(m)
}

/// The way of a server message through to its delivery when the raw hook, if
/// there is one, lets it pass.
pub open spec fn passed_on(s: PumpView, m: BackendView, now: Nanos) -> (PumpView, StepView) {
    let (t, st) = s.upstream_step(server_says(m), now);
    match st {
        StepView::Backend { message } => t.backend_step(
            message,
            intercept::ActionView::Forward,
            now,
        ),
        _ => (t, st),
    }
}

/// After `ReadyForQuery` the session takes the connection to be in exactly the
/// transaction state that the message carries, owes and is owed nothing, and
/// keeps everything else that it knew.
pub proof fn law_server_status_is_kept(s: PumpView, status: TransactionStatus, now: Nanos)
    ensures
        ({
            let (t, _) = s.upstream_step(
                server_says(BackendView::ReadyForQuery { status }),
                now,
            );
            &&& t.lease == Some(status)
            &&& t.status == status
            &&& !t.hygiene.awaiting_response
            &&& t.hygiene.copy == CopyCleanup::Inactive
            &&& t.fed == 0
            &&& t.endpoint == s.endpoint
            &&& t.dirty == s.dirty
            &&& t.registry == s.registry
            &&& t.overrides == s.overrides
            &&& t.swallow == s.swallow
            &&& t.draining == s.draining
            &&& t.extended == s.extended
            &&& t.shown_attached == s.shown_attached
            &&& t.transaction_mode == s.transaction_mode
        }),
{
}

/// A connection goes back to its pool only when the server itself said that no
/// transaction is open: over `ReadyForQuery` and its delivery it is released
/// exactly in transaction mode with the status idle, unless the session is
/// draining. In an open or failed transaction it stays attached, in the state
/// that the server named, so the client's next statement goes to it.
pub proof fn law_released_on_the_servers_word(s: PumpView, status: TransactionStatus, now: Nanos)
    ensures
        ({
            let m = BackendView::ReadyForQuery { status };
            let (t, st) = passed_on(s, m, now);
            let (u, done) = t.delivered_step(st->delivery);
            let effects = match done {
                StepView::Wait { effects } => effects,
                StepView::End { effects, .. } => effects,
                _ => Seq::empty(),
            };
            let released = s.transaction_mode && status == TransactionStatus::Idle && !s.draining;
            &&& st is Deliver
            &&& st->Deliver_message == m
            &&& released ==> {
                &&& effects.contains(EffectView::Release { dirty: s.dirty })
                &&& u.lease is None
                &&& !u.shown_attached
                &&& !u.dirty
            }
            &&& !released ==> {
                &&& forall|dirty: bool| !effects.contains(EffectView::Release { dirty })
                &&& u.lease == Some(status)
                &&& u.dirty == s.dirty
                &&& u.shown_attached == s.shown_attached
            }
            &&& u.endpoint == s.endpoint
            &&& u.registry == s.registry
            &&& u.overrides == s.overrides
            &&& done is End <==> s.draining
        }),
{
    let m = BackendView::ReadyForQuery { status };
    let (t, st) = passed_on(s, m, now);
    let (u, done) = t.delivered_step(st->delivery);
    match done {
        StepView::Wait { effects } => {
            if s.transaction_mode && status == TransactionStatus::Idle {
                assert(effects[effects.len() - 1] == (EffectView::Release { dirty: s.dirty }));
            }
        },
        _ => {},
    }
}

/// A parameter value that the server reports is what the session puts on its
/// next connection, the other parameters keep theirs, and the report reaches
/// the client as it is. In transaction mode the connection is reset before
/// others get it.
pub proof fn law_reported_parameters(
    s: PumpView,
    name: Seq<char>,
    value: Seq<char>,
    other: Seq<char>,
    now: Nanos,
)
    requires
        other != name,
    ensures
        ({
            let m = BackendView::ParameterStatus { name, value };
            let (t, st) = passed_on(s, m, now);
            &&& t.overrides.contains_key(name)
            &&& t.overrides[name] == value
            &&& t.overrides.contains_key(other) <==> s.overrides.contains_key(other)
            &&& s.overrides.contains_key(other) ==> t.overrides[other] == s.overrides[other]
            &&& t.dirty <==> s.dirty || s.transaction_mode
            &&& st is Deliver && st->Deliver_message == m
            &&& t.lease == s.lease
            &&& t.status == s.status
            &&& t.hygiene == s.hygiene
            &&& t.registry == s.registry
        }),
{
}

/// A COPY that the server starts is remembered with who has to end it; no
/// other message but `ReadyForQuery` changes what is remembered.
pub proof fn law_copy_followed(s: PumpView, m: BackendView, now: Nanos)
    requires
        !(m is ReadyForQuery),
    ensures
        ({
            let (t, _) = s.upstream_step(server_says(m), now);
            let kind = m.kind();
            &&& kind == BackendKind::CopyInResponse || kind == BackendKind::CopyBothResponse
                ==> m is ParameterStatus || t.hygiene.copy == CopyCleanup::ClientOwesCopy
            &&& kind == BackendKind::CopyOutResponse ==> m is ParameterStatus || t.hygiene.copy
                == CopyCleanup::ServerStreamsCopy
            &&& kind != BackendKind::CopyInResponse && kind != BackendKind::CopyBothResponse && kind
                != BackendKind::CopyOutResponse ==> t.hygiene.copy == s.hygiene.copy
            &&& t.hygiene.awaiting_response == s.hygiene.awaiting_response
            &&& t.lease == s.lease
            &&& t.status == s.status
            &&& t.fed == s.fed
        }),
{
}

// ---------------------------------------------------------------------------
// rows and other server messages
// ---------------------------------------------------------------------------

/// When the hooks want rows, every row whose data decodes goes to the row hook
/// with its values, in every state of the session; only a row that does not
/// decode, or hooks that do not want rows, lead past it. Nothing else happens.
pub proof fn law_rows_shown_to_the_row_hook(s: PumpView, row: wire::RowView, now: Nanos)
    requires
        s.hooks is Some,
    ensures
        ({
            let (t, st) = s.upstream_step(server_says(BackendView::DataRow { row }), now);
            let decoded = intercept::decode_values(row.data, row.field_count as nat);
            &&& s.hooks->0.wants_rows && decoded is Some ==> st == (StepView::Row {
                row: intercept::RowEditView { row, values: decoded->0, modified: false },
            })
            &&& !s.hooks->0.wants_rows || decoded is None ==> st == (StepView::Backend {
                message: BackendView::DataRow { row },
            })
            &&& t == s
        }),
{
}

/// A row that the row hook keeps goes on with the hook's edits, and without
/// edits byte for byte; it reaches the client as the raw hook leaves it.
pub proof fn law_kept_row_delivered(
    s: PumpView,
    row: intercept::RowEditView,
    m: BackendView,
    now: Nanos,
)
    ensures
        ({
            let (t, st) = s.row_step(row, RowAction::Keep);
            &&& t == s
            &&& st matches StepView::Backend { message: BackendView::DataRow { row: sent } }
            &&& row.modified ==> sent.data == intercept::encode_values(row.values)
                && sent.field_count == row.row.field_count
            &&& !row.modified ==> sent == row.row
        }),
        ({
            let (_, st) = s.backend_step(m, intercept::ActionView::Forward, now);
            st is Deliver && st->Deliver_message == m
        }),
{
}

/// The state once these rows have been dropped by the row hook, one after the
/// other.
pub open spec fn rows_dropped(s: PumpView, rows: Seq<intercept::RowEditView>) -> PumpView
    decreases rows.len(),
{
    if rows.len() == 0 {
        s
    } else {
        rows_dropped(s, rows.drop_last()).row_step(rows.last(), RowAction::Drop).0
    }
}

/// Rows that the row hook drops send the client nothing, and when counts are
/// adjusted the next command tag counts that many rows less; the report keeps
/// the server's own tag. The count then starts anew.
pub proof fn law_dropped_rows_leave_the_count(
    s: PumpView,
    rows: Seq<intercept::RowEditView>,
    command: Seq<char>,
    n: nat,
    now: Nanos,
)
    requires
        s.hooks is Some,
        s.cycle().dropped_pending + rows.len() <= u64::MAX,
        s.cycle().dropped_total + rows.len() <= u64::MAX,
    ensures
        ({
            let t = rows_dropped(s, rows);
            let pending = s.cycle().dropped_pending + rows.len();
            let tag = command + seq![' '] + text::decimal(n);
            let left = if pending <= n <= u64::MAX {
                (n - pending) as nat
            } else {
                0
            };
            let (u, st) = t.upstream_step(
                server_says(BackendView::CommandComplete { tag }),
                now,
            );
            &&& t.hooks is Some
            &&& t.hooks->0.wants_rows == s.hooks->0.wants_rows
            &&& t.hooks->0.adjust_counts == s.hooks->0.adjust_counts
            &&& t.cycle().dropped_pending == pending
            &&& t.cycle().dropped_total == s.cycle().dropped_total + rows.len()
            &&& t.cycle().rows == s.cycle().rows
            &&& st matches StepView::Backend { message: BackendView::CommandComplete { tag: shown } }
            &&& s.hooks->0.adjust_counts && pending > 0 ==> shown == command + seq![' ']
                + text::decimal(left)
            &&& !s.hooks->0.adjust_counts || pending == 0 ==> shown == tag
            &&& u.cycle().tag == Some(tag)
            &&& u.cycle().dropped_pending == 0
            &&& u.cycle().dropped_total == t.cycle().dropped_total
        }),
    decreases rows.len(),
{
    if rows.len() > 0 {
        law_dropped_rows_leave_the_count(s, rows.drop_last(), command, n, now);
    }
    cycle::law_adjusted_count(command, n, (s.cycle().dropped_pending + rows.len()) as nat);
}

/// A dropped row changes nothing but the counts of dropped rows.
pub proof fn law_dropped_row_is_gone(s: PumpView, row: intercept::RowEditView)
    requires
        s.hooks is Some,
        s.has_room(),
    ensures
        ({
            let (t, st) = s.row_step(row, RowAction::Drop);
            let c = s.cycle();
            &&& st matches StepView::Wait { effects } && effects.len() == 0
            &&& t == s.with_cycle(
                (cycle::TrackingView {
                    dropped_pending: (c.dropped_pending + 1) as u64,
                    dropped_total: (c.dropped_total + 1) as u64,
                    ..c
                }),
            )
        }),
{
}

/// Server messages other than rows and command tags reach the raw hook, and
/// through it the client, as the server sent them. A description of rows is
/// remembered for the row hook, an error for the report.
pub proof fn law_server_messages_pass_hooks(s: PumpView, m: BackendView, now: Nanos)
    requires
        s.hooks is Some,
        !(m is DataRow),
        !(m is CommandComplete),
    ensures
        ({
            let (t, st) = s.upstream_step(server_says(m), now);
            let (_, out) = passed_on(s, m, now);
            &&& st == (StepView::Backend { message: m })
            &&& out is Deliver && out->Deliver_message == m
            &&& t.hooks is Some
            &&& t.hooks->0.wants_rows == s.hooks->0.wants_rows
            &&& t.hooks->0.adjust_counts == s.hooks->0.adjust_counts
            &&& t.hooks->0.schema == (match m {
                BackendView::RowDescription { fields } if s.hooks->0.wants_rows => {
                    intercept::schema_of(fields)
                },
                _ => s.hooks->0.schema,
            })
            &&& m matches BackendView::ErrorResponse { error } ==> t.cycle().error == Some(
                intercept::CycleErrorView {
                    code: wire::field_value(error, 0x43),
                    message: wire::field_value(error, 0x4d),
                },
            )
            &&& !(m is ErrorResponse) ==> t.cycle() == s.cycle()
            &&& t.cycle().rows == s.cycle().rows
            &&& t.cycle().tag == s.cycle().tag
            &&& t.cycle().active == s.cycle().active
        }),
{
}

/// The schema that the row hook sees has one column for each described one, in
/// order, with its name, type and format.
pub proof fn law_schema_describes_columns(fields: Seq<wire::FieldView>, i: int)
    requires
        0 <= i < fields.len(),
    ensures
        intercept::schema_of(fields).len() == fields.len(),
        intercept::schema_of(fields)[i].name == fields[i].name,
        intercept::schema_of(fields)[i].type_oid == fields[i].type_id,
        intercept::schema_of(fields)[i].format == fields[i].format_code,
{
}

/// The raw server-message hook has the last word: what it lets pass is
/// delivered as the hook left it, what it replaces is not, and anything but
/// passing and replacing ends the session.
pub proof fn law_raw_server_hook(
    s: PumpView,
    m: BackendView,
    messages: Seq<BackendView>,
    action: intercept::ActionView,
    now: Nanos,
)
    requires
        !(action is Forward),
        !(action is Reply),
    ensures
        ({
            let (t, st) = s.backend_step(m, intercept::ActionView::Forward, now);
            &&& st is Deliver && st->Deliver_message == m
            &&& st->delivery.ready <==> m is ReadyForQuery
            &&& st->delivery.report is Some <==> m is ReadyForQuery && s.hooks is Some
                && s.cycle().active
            &&& t.lease == s.lease
            &&& t.registry == s.registry
            &&& t.dirty == s.dirty
        }),
        ({
            let (t, st) = s.backend_step(m, intercept::ActionView::Reply(messages), now);
            &&& st matches StepView::Wait { effects }
            &&& effects.len() == messages.len()
            &&& forall|i: int|
                0 <= i < messages.len() ==> #[trigger] effects[i] == EffectView::Send(messages[i])
            &&& t == (PumpView { hooks: t.hooks, backend: t.backend, ..s })
        }),
        s.backend_step(m, action, now) == (
            s,
            StepView::End { effects: Seq::empty(), end: EndView::ClientGone },
        ),
{
}

/// The report that comes with a delivered `ReadyForQuery` is that of the cycle
/// which it ends, and is handed over once the message has been delivered.
pub proof fn law_report_with_ready(s: PumpView, status: TransactionStatus, now: Nanos)
    requires
        s.hooks is Some,
        s.cycle().active,
    ensures
        ({
            let m = BackendView::ReadyForQuery { status };
            let (t, st) = passed_on(s, m, now);
            let c = s.cycle();
            &&& st->delivery.report matches Some(report)
            &&& report.sql == c.sql
            &&& report.kind == c.kind
            &&& report.tag == c.tag
            &&& report.rows == c.rows
            &&& report.rows_dropped == c.dropped_total
            &&& report.error == c.error
            &&& now >= c.started ==> report.latency == now - c.started
            &&& now < c.started ==> report.latency == 0
            &&& !t.cycle().active
            &&& t.delivered_step(st->delivery).1 matches StepView::Wait { effects } ==> effects[0]
                == EffectView::CycleEnd(report)
        }),
{
}

/// Delivering a message counts it, and has no other effect unless it was
/// `ReadyForQuery`.
pub proof fn law_delivery_counts(s: PumpView, report: Option<intercept::ReportView>)
    requires
        s.backend < u64::MAX,
    ensures
        ({
            let (t, st) = s.delivered_step(model::DeliveryView { ready: false, report });
            &&& t == (PumpView { backend: (s.backend + 1) as u64, ..s })
            &&& st matches StepView::Wait { effects }
            &&& report is None ==> effects.len() == 0
            &&& report matches Some(r) ==> effects.len() == 1 && effects[0] == EffectView::CycleEnd(
                r,
            )
        }),
{
}

// ---------------------------------------------------------------------------
// client messages
// ---------------------------------------------------------------------------

/// A client that says goodbye, vanishes or sends garbage ends its session at
/// once, whatever was going on, and nothing more is sent.
pub proof fn law_client_gone(s: PumpView, now: Nanos)
    ensures
        ({
            let over = (s, StepView::End { effects: Seq::empty(), end: EndView::ClientGone });
            &&& s.downstream_step(client_sends(FrontendView::Terminate), now) == over
            &&& s.downstream_step(model::DownstreamEventView::Closed, now) == over
            &&& s.downstream_step(model::DownstreamEventView::Broken, now) == over
        }),
{
}

/// Every query and every statement to prepare is shown to the query hook with
/// its SQL and its protocol, before anything else is done about it.
pub proof fn law_queries_shown_to_the_query_hook(
    s: PumpView,
    name: Option<Seq<char>>,
    sql: Seq<char>,
    type_oids: Seq<u32>,
    now: Nanos,
)
    requires
        s.hooks is Some,
        !s.swallow,
    ensures
        ({
            let m = FrontendView::Query { sql };
            s.downstream_step(client_sends(m), now) == (
                PumpView { extended: false, ..s },
                StepView::Query {
                    message: m,
                    cycle: intercept::QueryView {
                        sql,
                        kind: intercept::KindView::Simple,
                        rewritten: false,
                    },
                },
            )
        }),
        ({
            let m = FrontendView::Parse { name, sql, type_oids };
            s.downstream_step(client_sends(m), now) == (
                PumpView { extended: true, ..s },
                StepView::Query {
                    message: m,
                    cycle: intercept::QueryView {
                        sql,
                        kind: intercept::KindView::Extended { statement: name },
                        rewritten: false,
                    },
                },
            )
        }),
{
}

/// A simple query that the query hook lets pass goes on towards the server with
/// the hook's SQL where the hook set one and with the client's own otherwise,
/// and its cycle starts with that SQL. Routing is asked with the SQL that the
/// client sent.
pub proof fn law_passed_query_goes_on(
    s: PumpView,
    sql: Seq<char>,
    asked: intercept::QueryView,
    now: Nanos,
)
    requires
        s.hooks is Some,
    ensures
        ({
            let (t, st) = s.query_step(
                FrontendView::Query { sql },
                asked,
                intercept::ActionView::Forward,
                now,
            );
            let goes = FrontendView::Query {
                sql: if asked.rewritten {
                    asked.sql
                } else {
                    sql
                },
            };
            &&& s.lease is Some ==> st == (StepView::Frontend { message: goes })
            &&& s.lease is None ==> st == (StepView::Attach { message: goes, sql_hint: Some(sql) })
            &&& t.cycle().active
            &&& t.cycle().sql == Some(goes->Query_sql)
            &&& t.cycle().kind == intercept::KindView::Simple
            &&& t.cycle().started == now
            &&& t.cycle().rows == 0 && t.cycle().dropped_total == 0 && t.cycle().dropped_pending
                == 0
            &&& t.cycle().tag is None && t.cycle().error is None
            &&& t == (PumpView {
                hooks: t.hooks,
                shown_attached: s.shown_attached || s.lease is Some,
                ..s
            })
        }),
{
}

/// A statement that the query hook lets pass is prepared under the client's
/// name with the client's parameter types, with the hook's SQL where the hook
/// set one; and that is what a later connection prepares. A name that the
/// session has already is dealt with on the spot.
pub proof fn law_passed_statement_goes_on(
    s: PumpView,
    name: Option<Seq<char>>,
    sql: Seq<char>,
    type_oids: Seq<u32>,
    asked: intercept::QueryView,
    now: Nanos,
)
    requires
        s.hooks is Some,
        name matches Some(n) ==> n.len() > 0 ==> !s.registry.contains_key(n),
    ensures
        ({
            let (t, st) = s.query_step(
                FrontendView::Parse { name, sql, type_oids },
                asked,
                intercept::ActionView::Forward,
                now,
            );
            let goes = FrontendView::Parse {
                name,
                sql: if asked.rewritten {
                    asked.sql
                } else {
                    sql
                },
                type_oids,
            };
            &&& s.lease is Some ==> st == (StepView::Frontend { message: goes })
            &&& s.lease is None ==> st == (StepView::Attach { message: goes, sql_hint: Some(sql) })
            &&& t.cycle().active
            &&& t.cycle().sql == Some(goes->Parse_sql)
            &&& t.cycle().kind == (intercept::KindView::Extended { statement: name })
            &&& t.cycle().started == now
            &&& s.lease is Some ==> (name matches Some(n) ==> n.len() > 0 ==> {
                &&& t.registry == s.registry.insert(
                    n,
                    registry::StatementView { sql: goes->Parse_sql, type_oids },
                )
                &&& t.dirty
            })
            &&& s.lease is None ==> t.registry == s.registry && t.dirty == s.dirty
            &&& (name is None || name->0.len() == 0) ==> t.registry == s.registry && t.dirty
                == s.dirty
            &&& t.overrides == s.overrides
            &&& t.lease == s.lease
        }),
{
}

/// A query hook may close the session; then nothing is sent and nothing is
/// changed.
pub proof fn law_query_hook_closes(
    s: PumpView,
    m: FrontendView,
    asked: intercept::QueryView,
    now: Nanos,
)
    ensures
        s.query_step(m, asked, intercept::ActionView::Close, now) == (
            s,
            StepView::End { effects: Seq::empty(), end: EndView::ClientGone },
        ),
{
}

/// A denied query leaves the session just as it was: only what the hooks are
/// told and, in the extended protocol, the recovery until `Sync` differ.
pub proof fn law_denial_changes_nothing(
    s: PumpView,
    m: FrontendView,
    asked: intercept::QueryView,
    error: Seq<(u8, Seq<char>)>,
    now: Nanos,
)
    requires
        s.hooks is Some,
        m is Query || m is Parse,
    ensures
        ({
            let (t, st) = s.query_step(m, asked, intercept::ActionView::Deny(error), now);
            &&& t == (PumpView { hooks: t.hooks, swallow: s.swallow || m is Parse, ..s })
            &&& t.hooks->0.schema == s.hooks->0.schema
            &&& t.hooks->0.wants_rows == s.hooks->0.wants_rows
            &&& t.hooks->0.adjust_counts == s.hooks->0.adjust_counts
            &&& t.cycle().active <==> m is Parse
            &&& st matches StepView::Wait { effects }
            &&& effects[0] == EffectView::Send(BackendView::ErrorResponse { error })
            &&& m is Parse ==> effects.len() == 1 && t.cycle().error == Some(
                intercept::CycleErrorView {
                    code: wire::field_value(error, 0x43),
                    message: wire::field_value(error, 0x4d),
                },
            )
            &&& m is Query ==> effects.len() == 3 && effects[1] == EffectView::Send(
                BackendView::ReadyForQuery {
                    status: match s.lease {
                        Some(status) => status,
                        None => TransactionStatus::Idle,
                    },
                },
            )
        }),
{
}

/// While a session recovers from an error of the proxy's own, everything but
/// `Sync` and a goodbye is swallowed; `Sync` is answered with the state of the
/// attached connection, and the cycle is reported.
pub proof fn law_recovery(s: PumpView, m: FrontendView, now: Nanos)
    requires
        s.swallow,
        !(m is Terminate),
    ensures
        !(m is Sync) ==> s.downstream_step(client_sends(m), now) == (
            s,
            StepView::Wait { effects: Seq::empty() },
        ),
        m is Sync ==> {
            let (t, st) = s.downstream_step(client_sends(m), now);
            &&& t == (PumpView { swallow: false, hooks: t.hooks, ..s })
            &&& st matches StepView::Wait { effects }
            &&& effects[0] == EffectView::Send(
                BackendView::ReadyForQuery {
                    status: match s.lease {
                        Some(status) => status,
                        None => TransactionStatus::Idle,
                    },
                },
            )
            &&& s.hooks is None ==> effects.len() == 1 && t.hooks is None
            &&& s.hooks is Some ==> {
                &&& effects.len() == 2
                &&& effects[1] matches EffectView::CycleEnd(report)
                &&& report.sql == s.cycle().sql
                &&& report.error == s.cycle().error
                &&& report.tag == s.cycle().tag
                &&& report.rows == s.cycle().rows
                &&& !t.cycle().active
            }
        },
{
}

/// Without a connection, in transaction mode, the messages that only close or
/// synchronize are answered on the spot: none of them takes a connection.
pub proof fn law_detached_answers(s: PumpView, target: u8, name: Option<Seq<char>>, now: Nanos)
    requires
        s.transaction_mode,
        s.lease is None,
        !s.swallow,
    ensures
        ({
            let (t, st) = s.downstream_step(client_sends(FrontendView::Sync), now);
            let followed = s.hooks is Some && s.cycle().active;
            &&& t == (PumpView { hooks: t.hooks, ..s })
            &&& st matches StepView::Wait { effects }
            &&& effects[0] == EffectView::Send(BackendView::ReadyForQuery { status: s.status })
            &&& !followed ==> effects.len() == 1 && t == s
            &&& followed ==> effects.len() == 2 && effects[1] is CycleEnd && !t.cycle().active
        }),
        s.downstream_step(client_sends(FrontendView::Flush), now) == (
            s,
            StepView::Wait { effects: Seq::empty() },
        ),
        ({
            let (t, st) = s.downstream_step(client_sends(FrontendView::Close { target, name }), now);
            &&& st == (StepView::Wait {
                effects: seq![EffectView::Send(BackendView::CloseComplete)],
            })
            &&& target == 0x53 && name is Some ==> t == (PumpView {
                registry: s.registry.remove(name->0),
                ..s
            })
            &&& target != 0x53 || name is None ==> t == s
        }),
{
}

/// What the client sends besides queries and statements to prepare goes to the
/// attached server as it is: through the raw hook where there is one. Only a
/// closed statement changes what the session remembers.
pub proof fn law_other_messages_go_on(s: PumpView, m: FrontendView, now: Nanos)
    requires
        s.lease is Some,
        !s.swallow,
        !(m is Terminate),
        !(m is Query),
        !(m is Parse),
    ensures
        ({
            let (t, st) = s.downstream_step(client_sends(m), now);
            &&& s.hooks is Some ==> st == (StepView::Frontend { message: m })
            &&& s.hooks is None ==> st is Forward && st->Forward_message == m
            &&& m matches FrontendView::Close { target, name } ==> t.registry == (if target == 0x53
                && name is Some {
                s.registry.remove(name->0)
            } else {
                s.registry
            })
            &&& !(m is Close) ==> t.registry == s.registry
            &&& t.dirty == s.dirty
            &&& t.lease == s.lease
            &&& t.overrides == s.overrides
            &&& t.hooks == s.hooks
            &&& t.extended == s.extended
        }),
{
}

/// What the client sends while no connection is attached waits for one; routing
/// is told the SQL of the statement that a `Bind` names, when the session has
/// it, and nothing is changed by asking.
pub proof fn law_message_waits_for_a_connection(s: PumpView, m: FrontendView, now: Nanos)
    requires
        s.lease is None,
        !s.swallow,
        !(m is Terminate),
        !(m is Query),
        !(m is Parse),
        s.transaction_mode ==> !(m is Sync) && !(m is Flush) && !(m is Close),
    ensures
        ({
            let (t, st) = s.downstream_step(client_sends(m), now);
            &&& t == s
            &&& st matches StepView::Attach { message, sql_hint }
            &&& message == m
            &&& sql_hint is Some <==> {
                &&& m matches FrontendView::Bind { statement: Some(name), .. }
                &&& name.len() > 0
                &&& s.registry.contains_key(name)
            }
            &&& sql_hint matches Some(sql) ==> sql == s.registry[m->statement->0].sql
        }),
{
}

/// A connection that was attached is the session's: in the state and of the
/// endpoint that it was attached with. The message that it was attached for
/// goes to it, and session state put on it on the way is not forgotten.
pub proof fn law_attached_for_a_message(
    s: PumpView,
    m: FrontendView,
    endpoint: Seq<char>,
    status: TransactionStatus,
    dirtied: bool,
)
    ensures
        ({
            let (t, st) = s.attach_step(m, endpoint, status, dirtied);
            let prepares = m matches FrontendView::Parse { name: Some(name), .. } && name.len() > 0;
            &&& t.lease == Some(status)
            &&& t.endpoint == Some(endpoint)
            &&& t.shown_attached
            &&& t.dirty <==> s.dirty || dirtied || prepares
            &&& s.hooks is Some ==> st == (StepView::Frontend { message: m })
            &&& s.hooks is None ==> st is Forward && st->Forward_message == m
            &&& t.overrides == s.overrides
            &&& t.status == s.status
            &&& t.swallow == s.swallow
            &&& t.hooks == s.hooks
        }),
{
}

/// A session that cannot be attached tells its client why, with a fatal error,
/// and ends.
pub proof fn law_attach_failure_ends(s: PumpView, message: Seq<char>)
    ensures
        ({
            let (t, st) = s.attach_failed_step(message);
            &&& t == s
            &&& st matches StepView::End { effects, end }
            &&& end is ClientGone
            &&& effects.len() == 1
            &&& effects[0] matches EffectView::Send(BackendView::ErrorResponse { error })
            &&& wire::field_value(error, 0x53) == "FATAL"@
            &&& wire::field_value(error, 0x43) == "08006"@
            &&& wire::field_value(error, 0x4d) == message
        }),
{
    wire::law_error_fields("FATAL"@, "08006"@, message);
}

/// The raw client-message hook has the last word on what goes upstream: what it
/// lets pass is sent as the hook left it, what it replaces is not sent, and
/// anything but passing and replacing ends the session.
pub proof fn law_raw_client_hook(
    s: PumpView,
    m: FrontendView,
    messages: Seq<BackendView>,
    action: intercept::ActionView,
)
    requires
        !(action is Forward),
        !(action is Reply),
    ensures
        ({
            let (t, st) = s.frontend_step(m, intercept::ActionView::Forward);
            &&& st is Forward && st->Forward_message == m
            &&& t == (PumpView { hygiene: t.hygiene, ..s })
            &&& t.hygiene.copy == s.hygiene.copy
        }),
        ({
            let (t, st) = s.frontend_step(m, intercept::ActionView::Reply(messages));
            &&& st matches StepView::Wait { effects }
            &&& effects.len() == messages.len()
            &&& forall|i: int|
                0 <= i < messages.len() ==> #[trigger] effects[i] == EffectView::Send(messages[i])
            &&& t == (PumpView { hooks: t.hooks, ..s })
        }),
        s.frontend_step(m, action) == (
            s,
            StepView::End { effects: Seq::empty(), end: EndView::ClientGone },
        ),
{
}

/// A message that the server can answer is flushed on its way, every other is
/// not: exactly `Query`, `Sync`, `Flush`, a goodbye and the data of a COPY. The
/// server then owes a response to `Query`, `Sync` and `Flush`, and to what it
/// owed one before.
pub proof fn law_forwarding(s: PumpView, m: FrontendView)
    ensures
        ({
            let (t, st) = s.forward_step(m);
            let kind = m.kind();
            &&& st matches StepView::Forward { message, flush }
            &&& message == m
            &&& m is Query || m is Sync || m is Flush || m is Terminate ==> flush
            &&& m is Parse || m is Bind || m is Close ==> !flush
            &&& m matches FrontendView::Other { kind, .. } ==> (flush <==> kind
                == FrontendKind::CopyData || kind == FrontendKind::CopyDone || kind
                == FrontendKind::CopyFail || kind == FrontendKind::Query || kind
                == FrontendKind::Sync || kind == FrontendKind::Flush || kind
                == FrontendKind::Terminate)
            &&& t.hygiene.awaiting_response <==> s.hygiene.awaiting_response || kind
                == FrontendKind::Query || kind == FrontendKind::Sync || kind == FrontendKind::Flush
            &&& t.hygiene.copy == s.hygiene.copy
        }),
        s.fed < u32::MAX && s.frontend < u64::MAX ==> s.forwarded_step() == (
            PumpView { fed: (s.fed + 1) as u32, frontend: (s.frontend + 1) as u64, ..s },
            StepView::Wait { effects: Seq::empty() },
        ),
{
}

// ---------------------------------------------------------------------------
// lost connections
// ---------------------------------------------------------------------------

/// A lost connection is reported to the error policy under its endpoint; a
/// session without hooks is linked anew.
pub proof fn law_loss_reported(s: PumpView, cause: LossCause, now: Nanos)
    ensures
        s.hooks is Some ==> {
            let (t, st) = s.loss_step(cause, now);
            &&& t == s
            &&& st matches StepView::Lost { cause: c, error }
            &&& c == cause
            &&& error matches intercept::UpstreamErrorView::ConnectionLost { endpoint, .. }
            &&& s.endpoint matches Some(e) ==> endpoint == e
        },
        s.hooks is None ==> s.loss_step(cause, now) == s.lost_step(
            cause,
            RetryDecision::Relink,
            now,
        ),
        s.upstream_step(wire::UpstreamEventView::Closed, now) == s.loss_step(
            LossCause::Closed,
            now,
        ),
{
}

/// When the error policy closes, the session ends and its connection counts as
/// broken; nothing is sent.
pub proof fn law_loss_closes(s: PumpView, cause: LossCause, now: Nanos)
    ensures
        ({
            let (t, st) = s.lost_step(cause, RetryDecision::Close, now);
            &&& t == s
            &&& st matches StepView::End { effects, end }
            &&& effects.len() == 0
            &&& end is UpstreamBroken
        }),
{
}

/// When the session is linked anew it has no connection any more and remembers
/// all else. A client that waits for an answer gets exactly one error: in the
/// simple protocol with `ReadyForQuery`, in the extended protocol with recovery
/// until `Sync`. One that waits for nothing notices nothing. A message that
/// could not be sent interrupts also what was sent before it since the last
/// `ReadyForQuery`.
pub proof fn law_relinked(s: PumpView, cause: LossCause, now: Nanos)
    requires
        s.frontend < u64::MAX,
    ensures
        ({
            let (t, st) = s.lost_step(cause, RetryDecision::Relink, now);
            let interrupted = s.hygiene.awaiting_response || (cause == LossCause::Send && s.fed
                > 0);
            let had = if s.lease is Some {
                1int
            } else {
                0int
            };
            &&& t.lease is None
            &&& t.endpoint is None
            &&& !t.shown_attached
            &&& !t.hygiene.awaiting_response
            &&& t.hygiene.copy == s.hygiene.copy
            &&& t.fed == 0
            &&& t.registry == s.registry
            &&& t.overrides == s.overrides
            &&& t.dirty == s.dirty
            &&& t.draining == s.draining
            &&& t.extended == s.extended
            &&& t.backend == s.backend
            &&& t.frontend == s.frontend + if cause == LossCause::Send {
                1int
            } else {
                0int
            }
            &&& st matches StepView::Wait { effects }
            &&& s.lease is Some ==> effects[0] is Destroy
            &&& !interrupted ==> {
                &&& effects.len() == had
                &&& t.swallow == s.swallow
                &&& t.hooks == s.hooks
                &&& t.status == s.status
            }
            &&& interrupted ==> {
                &&& effects[had] matches EffectView::Send(BackendView::ErrorResponse { error })
                &&& wire::field_value(error, 0x53) == "ERROR"@
                &&& wire::field_value(error, 0x43) == "08006"@
                &&& s.extended ==> {
                    &&& effects.len() == had + 1
                    &&& t.swallow
                    &&& t.status == s.status
                }
                &&& !s.extended ==> {
                    &&& effects[had + 1] == EffectView::Send(
                        BackendView::ReadyForQuery { status: TransactionStatus::Idle },
                    )
                    &&& t.status == TransactionStatus::Idle
                    &&& t.swallow == s.swallow
                    &&& s.hooks is Some && s.cycle().active ==> {
                        &&& effects.len() == had + 3
                        &&& effects[had + 2] matches EffectView::CycleEnd(report)
                        &&& report.error matches Some(e)
                        &&& e.code == "08006"@
                        &&& report.sql == s.cycle().sql
                        &&& !t.cycle().active
                    }
                    &&& s.hooks is None || !s.cycle().active ==> effects.len() == had + 2
                }
            }
        }),
{
    wire::law_error_fields("ERROR"@, "08006"@, "upstream connection lost"@);
}

/// A connection on which the protocol broke ends the session as broken.
pub proof fn law_broken_upstream_ends(s: PumpView, reason: Seq<char>, now: Nanos)
    ensures
        ({
            let (t, st) = s.upstream_step(wire::UpstreamEventView::Broken(reason), now);
            &&& t == s
            &&& st matches StepView::End { effects, end }
            &&& effects.len() == 0
            &&& end == EndView::UpstreamBroken("upstream error: "@ + reason)
        }),
{
}

// ---------------------------------------------------------------------------
// scatters and starts
// ---------------------------------------------------------------------------

/// The merged result of a scatter reaches the client whole and in order, then
/// `ReadyForQuery`; the cycle is reported with the merged rows and the tag that
/// counts them. The attached connection is in the state in which its own leg
/// left it.
pub proof fn law_merged_scatter_answered(
    s: PumpView,
    tag: Seq<char>,
    merged: scatter::MergedView,
    now: Nanos,
)
    requires
        s.hooks is Some,
    ensures
        ({
            let (t, st) = s.scatter_merged(tag, merged, now);
            let n = merged.messages.len() as int;
            &&& st matches StepView::Wait { effects }
            &&& effects.len() == n + 2
            &&& forall|i: int|
                0 <= i < n ==> #[trigger] effects[i] == EffectView::Send(merged.messages[i])
            &&& effects[n] == EffectView::Send(BackendView::ReadyForQuery { status: s.status })
            &&& effects[n + 1] matches EffectView::CycleEnd(report)
            &&& report.rows == merged.rows
            &&& report.tag == Some(tag + " "@ + text::decimal(merged.rows as nat))
            &&& report.sql == s.cycle().sql
            &&& report.error == s.cycle().error
            &&& !t.cycle().active
            &&& t.lease == (if s.lease is Some && merged.session_status is Some {
                merged.session_status
            } else {
                s.lease
            })
            &&& t == (PumpView { hooks: t.hooks, lease: t.lease, ..s })
        }),
{
    let (t, st) = s.scatter_merged(tag, merged, now);
    let all = st->Wait_effects;
    assert forall|i: int| 0 <= i < merged.messages.len() implies #[trigger] all[i]
        == EffectView::Send(merged.messages[i]) by {
        assert(model::sends(merged.messages)[i] == EffectView::Send(merged.messages[i]));
    }
}

/// A session starts with nothing to remember: no statements, no parameters, no
/// error to recover from and no response owed, on the connection that it was
/// given.
pub proof fn law_session_starts_clean(
    transaction_mode: bool,
    wishes: Option<pump::HookWishes>,
    attached: Option<(Seq<char>, TransactionStatus)>,
    now: Nanos,
)
    ensures
        ({
            let s = pump::Pump::initial(transaction_mode, wishes, attached, now);
            &&& s.transaction_mode == transaction_mode
            &&& s.hooks is Some <==> wishes is Some
            &&& wishes matches Some(w) ==> {
                &&& s.hooks->0.wants_rows == w.wants_rows
                &&& s.hooks->0.adjust_counts == w.adjust_counts
                &&& !s.cycle().active
            }
            &&& attached is None ==> s.lease is None && s.endpoint is None
            &&& attached matches Some((endpoint, status)) ==> {
                &&& s.lease == Some(status)
                &&& s.endpoint == Some(endpoint)
            }
            &&& s.shown_attached <==> attached is Some
            &&& s.status == TransactionStatus::Idle
            &&& s.registry == Map::<Seq<char>, registry::StatementView>::empty()
            &&& s.overrides == Map::<Seq<char>, Seq<char>>::empty()
            &&& !s.dirty && !s.swallow && !s.draining && !s.extended
            &&& s.fed == 0 && s.frontend == 0 && s.backend == 0
            &&& s.hygiene == (Hygiene { awaiting_response: false, copy: CopyCleanup::Inactive })
        }),
{
}

// ---------------------------------------------------------------------------
// answers that do not come from a server
// ---------------------------------------------------------------------------

/// The errors that the session makes up itself: severity, SQLSTATE and message.
pub proof fn law_session_errors(name: Seq<char>, message: Seq<char>)
    ensures
        wire::field_value(model::lost_error(), 0x53) == "ERROR"@,
        wire::field_value(model::lost_error(), 0x43) == "08006"@,
        wire::field_value(model::lost_error(), 0x4d) == "upstream connection lost"@,
        wire::field_value(model::duplicate_error(name), 0x53) == "ERROR"@,
        wire::field_value(model::duplicate_error(name), 0x43) == "42P05"@,
        wire::field_value(model::duplicate_error(name), 0x4d) == "prepared statement \""@ + name
            + "\" already exists (pgferry)"@,
        wire::field_value(model::scatter_protocol_error(), 0x53) == "ERROR"@,
        wire::field_value(model::scatter_protocol_error(), 0x43) == "0A000"@,
        wire::field_value(model::scatter_protocol_error(), 0x4d)
            == "pgferry scatter: simple protocol only"@,
        wire::field_value(model::scatter_transaction_error(), 0x53) == "ERROR"@,
        wire::field_value(model::scatter_transaction_error(), 0x43) == "0A000"@,
        wire::field_value(model::scatter_transaction_error(), 0x4d)
            == "pgferry scatter: not allowed inside a transaction"@,
        wire::field_value(model::attach_error(message), 0x53) == "FATAL"@,
        wire::field_value(model::attach_error(message), 0x43) == "08006"@,
        wire::field_value(model::attach_error(message), 0x4d) == message,
{
    wire::law_error_fields("ERROR"@, "08006"@, "upstream connection lost"@);
    wire::law_error_fields(
        "ERROR"@,
        "42P05"@,
        "prepared statement \""@ + name + "\" already exists (pgferry)"@,
    );
    wire::law_error_fields("ERROR"@, "0A000"@, "pgferry scatter: simple protocol only"@);
    wire::law_error_fields(
        "ERROR"@,
        "0A000"@,
        "pgferry scatter: not allowed inside a transaction"@,
    );
    wire::law_error_fields("FATAL"@, "08006"@, message);
}

proof fn lemma_rows_counted(messages: Seq<BackendView>)
    ensures
        model::count_rows(messages) == messages.filter(|m: BackendView| m is DataRow).len(),
    decreases messages.len(),
{
    reveal(Seq::filter);
    if messages.len() > 0 {
        lemma_rows_counted(messages.drop_last());
    }
}

proof fn lemma_last_tag_behind(a: Seq<BackendView>, b: Seq<BackendView>)
    requires
        forall|i: int| 0 <= i < b.len() ==> !((#[trigger] b[i]) is CommandComplete),
    ensures
        model::last_tag(a + b) == model::last_tag(a),
    decreases b.len(),
{
    if b.len() == 0 {
        assert(a + b =~= a);
    } else {
        assert((a + b).last() == b[b.len() - 1]);
        assert((a + b).drop_last() =~= a + b.drop_last());
        lemma_last_tag_behind(a, b.drop_last());
    }
}

proof fn lemma_last_error_behind(a: Seq<BackendView>, b: Seq<BackendView>)
    requires
        forall|i: int| 0 <= i < b.len() ==> !((#[trigger] b[i]) is ErrorResponse),
    ensures
        model::last_error(a + b) == model::last_error(a),
    decreases b.len(),
{
    if b.len() == 0 {
        assert(a + b =~= a);
    } else {
        assert((a + b).last() == b[b.len() - 1]);
        assert((a + b).drop_last() =~= a + b.drop_last());
        lemma_last_error_behind(a, b.drop_last());
    }
}

/// What a report says of messages that a hook sent: how many rows there are
/// among them, and the last command tag and the last error, whatever follows.
pub proof fn law_messages_summed_up(
    before: Seq<BackendView>,
    tag: Seq<char>,
    error: Seq<(u8, Seq<char>)>,
    after: Seq<BackendView>,
)
    ensures
        model::count_rows(before) == before.filter(|m: BackendView| m is DataRow).len(),
        (forall|i: int| 0 <= i < after.len() ==> !((#[trigger] after[i]) is CommandComplete))
            ==> model::last_tag(before + seq![BackendView::CommandComplete { tag }] + after)
            == Some(tag) && model::last_tag(after) is None,
        (forall|i: int| 0 <= i < after.len() ==> !((#[trigger] after[i]) is ErrorResponse))
            ==> model::last_error(before + seq![BackendView::ErrorResponse { error }] + after)
            == Some(
            intercept::CycleErrorView {
                code: wire::field_value(error, 0x43),
                message: wire::field_value(error, 0x4d),
            },
        ) && model::last_error(after) is None,
{
    lemma_rows_counted(before);
    let tagged = before + seq![BackendView::CommandComplete { tag }];
    let refused = before + seq![BackendView::ErrorResponse { error }];
    assert(tagged.last() == (BackendView::CommandComplete { tag }));
    assert(refused.last() == (BackendView::ErrorResponse { error }));
    assert(Seq::<BackendView>::empty() + after =~= after);
    if forall|i: int| 0 <= i < after.len() ==> !((#[trigger] after[i]) is CommandComplete) {
        lemma_last_tag_behind(tagged, after);
        lemma_last_tag_behind(Seq::empty(), after);
    }
    if forall|i: int| 0 <= i < after.len() ==> !((#[trigger] after[i]) is ErrorResponse) {
        lemma_last_error_behind(refused, after);
        lemma_last_error_behind(Seq::empty(), after);
    }
}

/// Whether the telemetry took note of messages that a hook sent: their rows are
/// added, and a command tag and an error among them replace those noted before.
pub open spec fn took_note(
    was: cycle::TrackingView,
    now: cycle::TrackingView,
    messages: Seq<BackendView>,
) -> bool {
    let tags = messages.filter(|m: BackendView| m is CommandComplete);
    let errors = messages.filter(|m: BackendView| m is ErrorResponse);
    &&& now.rows == was.rows + messages.filter(|m: BackendView| m is DataRow).len()
    &&& now.tag == (if tags.len() == 0 {
        was.tag
    } else {
        Some(tags.last()->tag)
    })
    &&& now.error == (if errors.len() == 0 {
        was.error
    } else {
        Some(intercept::cycle_error_of(errors.last()->error))
    })
    &&& now == (cycle::TrackingView { rows: now.rows, tag: now.tag, error: now.error, ..was })
}

proof fn lemma_last_ones(messages: Seq<BackendView>)
    ensures
        ({
            let tags = messages.filter(|m: BackendView| m is CommandComplete);
            let errors = messages.filter(|m: BackendView| m is ErrorResponse);
            &&& model::last_tag(messages) == (if tags.len() == 0 {
                None
            } else {
                Some(tags.last()->tag)
            })
            &&& model::last_error(messages) == (if errors.len() == 0 {
                None
            } else {
                Some(intercept::cycle_error_of(errors.last()->error))
            })
        }),
    decreases messages.len(),
{
    reveal(Seq::filter);
    if messages.len() > 0 {
        lemma_last_ones(messages.drop_last());
    }
}

/// Messages that a raw hook sends in place of one are noted in the telemetry; a
/// replaced server message counts as one that came, a replaced client message
/// does not count as sent.
pub proof fn law_raw_replies_noted(
    s: PumpView,
    m: FrontendView,
    b: BackendView,
    messages: Seq<BackendView>,
    now: Nanos,
)
    requires
        s.hooks is Some,
        s.backend < u64::MAX,
        s.cycle().rows + messages.filter(|m: BackendView| m is DataRow).len() <= u64::MAX,
    ensures
        ({
            let t = s.frontend_step(m, intercept::ActionView::Reply(messages)).0;
            &&& t.hooks is Some
            &&& took_note(s.cycle(), t.cycle(), messages)
            &&& t.frontend == s.frontend && t.backend == s.backend && t.fed == s.fed
        }),
        ({
            let t = s.backend_step(b, intercept::ActionView::Reply(messages), now).0;
            &&& t.hooks is Some
            &&& took_note(s.cycle(), t.cycle(), messages)
            &&& t.frontend == s.frontend && t.backend == s.backend + 1
        }),
{
    lemma_rows_counted(messages);
    lemma_last_ones(messages);
}

/// A query that the query hook answers itself: in the simple protocol the client
/// gets the hook's messages, then `ReadyForQuery` with the state of its
/// connection, and the report of the cycle; a prepared one gets the messages
/// and `ReadyForQuery`, and everything up to `Sync` is passed over. No
/// connection is touched.
pub proof fn law_hook_answers(
    s: PumpView,
    name: Option<Seq<char>>,
    sql: Seq<char>,
    type_oids: Seq<u32>,
    asked: intercept::QueryView,
    messages: Seq<BackendView>,
    now: Nanos,
)
    requires
        s.hooks is Some,
        messages.filter(|m: BackendView| m is DataRow).len() <= u64::MAX,
    ensures
        ({
            let m = FrontendView::Query { sql };
            let (t, st) = s.query_step(m, asked, intercept::ActionView::Reply(messages), now);
            let n = messages.len() as int;
            &&& st matches StepView::Wait { effects }
            &&& effects.len() == n + 2
            &&& forall|i: int| 0 <= i < n ==> #[trigger] effects[i] == EffectView::Send(messages[i])
            &&& effects[n] == EffectView::Send(
                BackendView::ReadyForQuery {
                    status: match s.lease {
                        Some(status) => status,
                        None => TransactionStatus::Idle,
                    },
                },
            )
            &&& effects[n + 1] matches EffectView::CycleEnd(report)
            &&& report.rows == messages.filter(|m: BackendView| m is DataRow).len()
            &&& report.tag == model::last_tag(messages)
            &&& report.error == model::last_error(messages)
            &&& t.lease == s.lease && t.swallow == s.swallow && t.status == s.status
            &&& t.registry == s.registry && t.hygiene == s.hygiene
        }),
        ({
            let m = FrontendView::Parse { name, sql, type_oids };
            let (t, st) = s.query_step(m, asked, intercept::ActionView::Reply(messages), now);
            let n = messages.len() as int;
            &&& st matches StepView::Wait { effects }
            &&& effects.len() == n + 1
            &&& forall|i: int| 0 <= i < n ==> #[trigger] effects[i] == EffectView::Send(messages[i])
            &&& effects[n] == EffectView::Send(
                BackendView::ReadyForQuery {
                    status: match s.lease {
                        Some(status) => status,
                        None => TransactionStatus::Idle,
                    },
                },
            )
            &&& t.swallow
            &&& t.lease == s.lease && t.status == s.status
            &&& t.registry == s.registry && t.hygiene == s.hygiene
        }),
{
    lemma_rows_counted(messages);
}

/// A scatter that failed: the client gets the failed shard's error and one
/// `ReadyForQuery`. A connection of its own that broke is closed first, and the
/// session goes on without one, idle; one that did not break is kept, in the
/// state that its leg left it.
pub proof fn law_scatter_failure(
    s: PumpView,
    failure: scatter::FailureView,
    status: TransactionStatus,
    now: Nanos,
)
    requires
        s.hooks is Some,
    ensures
        s.lease is Some && failure.session_lease_broken ==> {
            let (t, st) = s.scatter_failed(failure, now);
            &&& t.lease is None && t.endpoint is None && !t.shown_attached
            &&& t.status == TransactionStatus::Idle
            &&& st matches StepView::Wait { effects }
            &&& effects.len() == 4
            &&& effects[0] is Destroy
            &&& effects[1] == EffectView::Send(BackendView::ErrorResponse { error: failure.error })
            &&& effects[2] == EffectView::Send(
                BackendView::ReadyForQuery { status: TransactionStatus::Idle },
            )
            &&& effects[3] is CycleEnd
        },
        s.lease is None || !failure.session_lease_broken ==> {
            let (t, st) = s.scatter_failed(failure, now);
            let left = match (s.lease, failure.session_status) {
                (Some(_), Some(ran)) => Some(ran),
                (lease, _) => lease,
            };
            let state = match left {
                Some(state) => state,
                None => TransactionStatus::Idle,
            };
            &&& t.lease == left && t.endpoint == s.endpoint
            &&& t.shown_attached <==> left is Some
            &&& t.status == state
            &&& st matches StepView::Wait { effects }
            &&& effects.len() == 3
            &&& effects[0] == EffectView::Send(BackendView::ErrorResponse { error: failure.error })
            &&& effects[1] == EffectView::Send(BackendView::ReadyForQuery { status: state })
            &&& effects[2] is CycleEnd
        },
{
}

/// A shutdown waits for what is under way: a session that is owed a response, or
/// has a COPY going in either direction, goes on until its next
/// `ReadyForQuery`; any other ends at once, without a word to the client.
pub proof fn law_shutdown(s: PumpView)
    ensures
        s.hygiene.awaiting_response || s.hygiene.copy == CopyCleanup::ClientOwesCopy
            || s.hygiene.copy == CopyCleanup::ServerStreamsCopy ==> s.shutdown_step() == (
            PumpView { draining: true, ..s },
            StepView::Wait { effects: Seq::empty() },
        ),
        !s.hygiene.awaiting_response && s.hygiene.copy == CopyCleanup::Inactive
            ==> s.shutdown_step() == (
            s,
            StepView::End { effects: Seq::empty(), end: EndView::ClientGone },
        ),
{
}

/// A draining session ends with the `ReadyForQuery` that it waited for, after
/// the client has it; its connection is not given back in the middle of that.
pub proof fn law_drained(s: PumpView, report: Option<intercept::ReportView>)
    requires
        s.draining,
    ensures
        ({
            let (t, st) = s.delivered_step(model::DeliveryView { ready: true, report });
            &&& st matches StepView::End { effects, end }
            &&& end is ClientGone
            &&& t.lease == s.lease
            &&& report is None ==> effects.len() == 0
            &&& report matches Some(r) ==> effects.len() == 1 && effects[0] == EffectView::CycleEnd(
                r,
            )
        }),
{
}

/// A name that the session has prepared already: the same SQL is answered as
/// prepared, without a server; any other is refused, and everything up to
/// `Sync` is passed over. The statement stays as it was.
pub proof fn law_prepared_twice(
    s: PumpView,
    name: Seq<char>,
    sql: Seq<char>,
    type_oids: Seq<u32>,
    hint: Option<Seq<char>>,
)
    requires
        name.len() > 0,
        s.registry.contains_key(name),
    ensures
        ({
            let m = FrontendView::Parse { name: Some(name), sql, type_oids };
            let (t, st) = s.enroll_step(m, hint);
            &&& t.registry == s.registry && t.lease == s.lease && t.hygiene == s.hygiene
            &&& st matches StepView::Wait { effects }
            &&& effects.len() == 1
            &&& s.registry[name].sql == sql ==> t == s && effects[0] == EffectView::Send(
                BackendView::ParseComplete,
            )
            &&& s.registry[name].sql != sql ==> t.swallow && effects[0] == EffectView::Send(
                BackendView::ErrorResponse { error: model::duplicate_error(name) },
            )
        }),
{
}

/// Every row that is delivered is counted, in every state, and nothing else is.
pub proof fn law_delivered_rows_counted(s: PumpView, m: BackendView, row: wire::RowView, now: Nanos)
    requires
        s.hooks is Some,
        s.cycle().rows < u64::MAX,
    ensures
        ({
            let (t, st) = s.deliver_step(BackendView::DataRow { row }, now);
            &&& t.hooks is Some
            &&& t.cycle().rows == s.cycle().rows + 1
            &&& t.cycle() == (cycle::TrackingView { rows: t.cycle().rows, ..s.cycle() })
            &&& t == (PumpView { hooks: t.hooks, ..s })
            &&& st == (StepView::Deliver {
                message: BackendView::DataRow { row },
                delivery: model::DeliveryView { ready: false, report: None },
            })
        }),
        !(m is DataRow) && !(m is ReadyForQuery) ==> s.deliver_step(m, now) == (
            s,
            StepView::Deliver {
                message: m,
                delivery: model::DeliveryView { ready: false, report: None },
            },
        ),
        !s.cycle().active ==> s.deliver_step(BackendView::ReadyForQuery { status: s.status }, now)
            == (
            s,
            StepView::Deliver {
                message: BackendView::ReadyForQuery { status: s.status },
                delivery: model::DeliveryView { ready: true, report: None },
            },
        ),
{
}

/// What is said of a lost connection: whether sending failed or the server
/// closed it, to the error policy and in the reason that the connection is
/// closed with.
pub proof fn law_loss_told(s: PumpView, endpoint: Seq<char>, now: Nanos)
    requires
        s.hooks is Some,
        s.lease is Some,
        s.endpoint == Some(endpoint),
    ensures
        s.loss_step(LossCause::Send, now).1 == (StepView::Lost {
            cause: LossCause::Send,
            error: intercept::UpstreamErrorView::ConnectionLost {
                endpoint,
                message: "send failed"@,
            },
        }),
        s.loss_step(LossCause::Closed, now).1 == (StepView::Lost {
            cause: LossCause::Closed,
            error: intercept::UpstreamErrorView::ConnectionLost {
                endpoint,
                message: "upstream closed unexpectedly"@,
            },
        }),
        s.lost_step(LossCause::Send, RetryDecision::Close, now).1 == (StepView::End {
            effects: Seq::empty(),
            end: EndView::UpstreamBroken("upstream send failed"@),
        }),
        s.lost_step(LossCause::Closed, RetryDecision::Close, now).1 == (StepView::End {
            effects: Seq::empty(),
            end: EndView::UpstreamBroken("upstream EOF"@),
        }),
        s.lost_step(LossCause::Send, RetryDecision::Relink, now).1 matches StepView::Wait { effects }
            && effects.len() > 0 && effects[0] == EffectView::Destroy("send failed"@),
        s.lost_step(LossCause::Closed, RetryDecision::Relink, now).1 matches StepView::Wait {
            effects,
        } && effects.len() > 0 && effects[0] == EffectView::Destroy("upstream lost"@),
{
}

/// A scatter is run for a simple query of an idle session alone: one in a
/// transaction, open or failed, is refused, and so is one in the extended
/// protocol. Then the client gets an error and `ReadyForQuery`, and no
/// connection is touched.
pub proof fn law_scatter_gate(
    s: PumpView,
    sql: Seq<char>,
    name: Option<Seq<char>>,
    type_oids: Seq<u32>,
    asked: intercept::QueryView,
    request: scatter::RequestView,
    now: Nanos,
)
    requires
        s.hooks is Some,
    ensures
        ({
            let m = FrontendView::Query { sql };
            let (t, st) = s.query_step(m, asked, intercept::ActionView::Scatter(request), now);
            &&& s.status == TransactionStatus::Idle <==> st == (StepView::Scatter { request })
            &&& s.status == TransactionStatus::Transaction || s.status == TransactionStatus::Error
                ==> {
                &&& st matches StepView::Wait { effects }
                &&& effects.len() == 3
                &&& effects[0] == EffectView::Send(
                    BackendView::ErrorResponse { error: model::scatter_transaction_error() },
                )
                &&& effects[1] == EffectView::Send(
                    BackendView::ReadyForQuery {
                        status: match s.lease {
                            Some(status) => status,
                            None => TransactionStatus::Idle,
                        },
                    },
                )
                &&& effects[2] is CycleEnd
                &&& t == (PumpView { hooks: t.hooks, ..s })
            }
        }),
        ({
            let m = FrontendView::Parse { name, sql, type_oids };
            let (t, st) = s.query_step(m, asked, intercept::ActionView::Scatter(request), now);
            &&& st matches StepView::Wait { effects }
            &&& effects.len() == 3
            &&& effects[0] == EffectView::Send(
                BackendView::ErrorResponse { error: model::scatter_protocol_error() },
            )
            &&& effects[1] is Send && effects[2] is CycleEnd
            &&& t == (PumpView { hooks: t.hooks, ..s })
        }),
{
}

} // verus!
