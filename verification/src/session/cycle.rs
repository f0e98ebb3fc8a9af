//! Query cycles: what starts one, and what is reported when it ends.

use vstd::prelude::*;

use crate::intercept;
use crate::intercept::{CycleError, CycleKind, CycleReport};
use crate::text;
use crate::time;
use crate::time::Nanos;
use crate::wire;
use crate::wire::FrontendMessage;

verus! {

// ---------------------------------------------------------------------------
// messages that start a cycle
// ---------------------------------------------------------------------------

/// What a message that starts a query cycle carries.
pub struct CycleInput {
    pub sql: String,
    pub kind: CycleKind,
}

/// The view of a cycle's input.
#[verifier::ext_equal]
pub struct InputView {
    pub sql: Seq<char>,
    pub kind: intercept::KindView,
}

impl View for CycleInput {
    type V = InputView;

    open spec fn view(&self) -> InputView {
        InputView { sql: self.sql@, kind: self.kind@ }
    }
}

/// The view of an optional cycle input.
pub open spec fn opt_input(i: Option<CycleInput>) -> Option<InputView> {
    match i {
        Some(i) => Some(i@),
        None => None,
    }
}

/// The input of the cycle that a message starts: `Query` in the simple
/// protocol, `Parse` in the extended protocol (where SQL becomes visible).
pub open spec fn input_of(m: wire::FrontendView) -> Option<InputView> {
    match m {
        wire::FrontendView::Query { sql } => Some(
            InputView { sql, kind: intercept::KindView::Simple },
        ),
        wire::FrontendView::Parse { name, sql, .. } => Some(
            InputView { sql, kind: intercept::KindView::Extended { statement: name } },
        ),
        _ => None,
    }
}

/// The input of the cycle that `message` starts, if it starts one.
pub fn cycle_input_of(message: &FrontendMessage) -> (r: Option<CycleInput>)
    ensures
        opt_input(r) == input_of(message@),
{
    match message {
        FrontendMessage::Query { sql } => Some(
            CycleInput { sql: sql.clone(), kind: CycleKind::Simple },
        ),
        FrontendMessage::Parse { name, sql, .. } => Some(
            CycleInput {
                sql: sql.clone(),
                kind: CycleKind::Extended { statement: text::copy_opt(name) },
            },
        ),
        _ => None,
    }
}

/// The SQL text of a message that starts a cycle.
pub open spec fn sql_of(m: wire::FrontendView) -> Option<Seq<char>> {
    match m {
        wire::FrontendView::Query { sql } => Some(sql),
        wire::FrontendView::Parse { sql, .. } => Some(sql),
        _ => None,
    }
}

/// The SQL text of a (possibly rewritten) message that starts a cycle.
pub fn cycle_sql_of(message: &FrontendMessage) -> (r: Option<String>)
    ensures
        text::opt_text(r) == sql_of(message@),
{
    match message {
        FrontendMessage::Query { sql } => Some(sql.clone()),
        FrontendMessage::Parse { sql, .. } => Some(sql.clone()),
        _ => None,
    }
}

/// A message with its SQL replaced, where there is a replacement and the
/// message starts a cycle.
pub open spec fn rewritten(
    m: wire::FrontendView,
    replacement: Option<Seq<char>>,
) -> wire::FrontendView {
    match (m, replacement) {
        (wire::FrontendView::Query { .. }, Some(sql)) => wire::FrontendView::Query { sql },
        (wire::FrontendView::Parse { name, type_oids, .. }, Some(sql)) => wire::FrontendView::Parse {
            name,
            sql,
            type_oids,
        },
        _ => m,
    }
}

/// Write a rewritten SQL back into the message that starts the cycle.
pub fn apply_rewrite(message: FrontendMessage, replacement: Option<String>) -> (r: FrontendMessage)
    ensures
        r@ == rewritten(message@, text::opt_text(replacement)),
{
    match replacement {
        None => message,
        Some(new_sql) => match message {
            FrontendMessage::Query { .. } => FrontendMessage::Query { sql: new_sql },
            FrontendMessage::Parse { name, type_oids, .. } => FrontendMessage::Parse {
                name,
                sql: new_sql,
                type_oids,
            },
            other => other,
        },
    }
}

/// A rewrite changes the SQL of a message that starts a cycle and nothing
/// else: the cycle keeps its protocol flavor and statement name.
pub proof fn law_rewrite_keeps_cycle(m: wire::FrontendView, sql: Seq<char>)
    ensures
        match input_of(m) {
            Some(input) => {
                &&& input_of(rewritten(m, Some(sql))) == Some(InputView { sql, kind: input.kind })
                &&& sql_of(rewritten(m, Some(sql))) == Some(sql)
            },
            None => rewritten(m, Some(sql)) == m,
        },
        rewritten(m, None) == m,
{
}

/// A rewrite touches nothing but the SQL: a `Query` stays a `Query`, a `Parse`
/// keeps the name and the parameter types that the client gave, and a message
/// that carries no SQL is left alone.
pub proof fn law_rewrite_touches_only_sql(
    m: wire::FrontendView,
    name: Option<Seq<char>>,
    sql: Seq<char>,
    type_oids: Seq<u32>,
    new_sql: Seq<char>,
)
    ensures
        rewritten(wire::FrontendView::Query { sql }, Some(new_sql)) == (wire::FrontendView::Query {
            sql: new_sql,
        }),
        rewritten(wire::FrontendView::Parse { name, sql, type_oids }, Some(new_sql)) == (
        wire::FrontendView::Parse { name, sql: new_sql, type_oids }),
        !(m is Query) && !(m is Parse) ==> rewritten(m, Some(new_sql)) == m,
        rewritten(m, None) == m,
{
}

/// A cycle starts with `Query` or `Parse` and with nothing else, and carries
/// the SQL of that message; in the extended protocol also the name under which
/// the client prepares it.
pub proof fn law_cycle_starts(
    m: wire::FrontendView,
    name: Option<Seq<char>>,
    sql: Seq<char>,
    type_oids: Seq<u32>,
)
    ensures
        input_of(m) is Some <==> m is Query || m is Parse,
        sql_of(m) is Some <==> m is Query || m is Parse,
        ({
            let q = wire::FrontendView::Query { sql };
            &&& sql_of(q) == Some(sql)
            &&& input_of(q)->0.sql == sql
            &&& input_of(q)->0.kind is Simple
        }),
        ({
            let q = wire::FrontendView::Parse { name, sql, type_oids };
            &&& sql_of(q) == Some(sql)
            &&& input_of(q)->0.sql == sql
            &&& input_of(q)->0.kind == (intercept::KindView::Extended { statement: name })
        }),
{
}

// ---------------------------------------------------------------------------
// telemetry
// ---------------------------------------------------------------------------

/// Telemetry of the active cycle.
pub struct CycleTracking {
    pub active: bool,
    pub sql: Option<String>,
    pub kind: CycleKind,
    pub started: Nanos,
    pub tag: Option<String>,
    pub rows: u64,
    /// Rows dropped since the last `CommandComplete` (for count adjustment).
    pub dropped_pending: u64,
    /// Total rows dropped in the cycle (for the report).
    pub dropped_total: u64,
    pub error: Option<CycleError>,
}

/// The view of a cycle's telemetry.
#[verifier::ext_equal]
pub struct TrackingView {
    pub active: bool,
    pub sql: Option<Seq<char>>,
    pub kind: intercept::KindView,
    pub started: Nanos,
    pub tag: Option<Seq<char>>,
    pub rows: u64,
    pub dropped_pending: u64,
    pub dropped_total: u64,
    pub error: Option<intercept::CycleErrorView>,
}

impl View for CycleTracking {
    type V = TrackingView;

    open spec fn view(&self) -> TrackingView {
        TrackingView {
            active: self.active,
            sql: text::opt_text(self.sql),
            kind: self.kind@,
            started: self.started,
            tag: text::opt_text(self.tag),
            rows: self.rows,
            dropped_pending: self.dropped_pending,
            dropped_total: self.dropped_total,
            error: intercept::opt_error(self.error),
        }
    }
}

/// No cycle, at the time `now`.
pub open spec fn no_cycle(now: Nanos) -> TrackingView {
    TrackingView {
        active: false,
        sql: None,
        kind: intercept::KindView::Simple,
        started: now,
        tag: None,
        rows: 0,
        dropped_pending: 0,
        dropped_total: 0,
        error: None,
    }
}

/// A cycle that starts at the time `now`.
pub open spec fn fresh_cycle(
    sql: Option<Seq<char>>,
    kind: intercept::KindView,
    now: Nanos,
) -> TrackingView {
    TrackingView {
        active: true,
        sql,
        kind,
        started: now,
        tag: None,
        rows: 0,
        dropped_pending: 0,
        dropped_total: 0,
        error: None,
    }
}

impl TrackingView {
    /// The report of the cycle when it ends at the time `now`.
    pub open spec fn report(self, now: Nanos) -> intercept::ReportView {
        intercept::ReportView {
            sql: self.sql,
            kind: self.kind,
            tag: self.tag,
            rows: self.rows,
            rows_dropped: self.dropped_total,
            error: self.error,
            latency: time::elapsed_at(self.started, now),
        }
    }

    /// What is left of the telemetry when the cycle has ended.
    pub open spec fn finished(self) -> TrackingView {
        TrackingView {
            active: false,
            sql: None,
            kind: intercept::KindView::Simple,
            tag: None,
            error: None,
            ..self
        }
    }

    /// The telemetry with this error.
    pub open spec fn with_error(self, error: intercept::CycleErrorView) -> TrackingView {
        TrackingView { error: Some(error), ..self }
    }
}

impl CycleTracking {
    /// No cycle.
    pub fn new(now: Nanos) -> (c: CycleTracking)
        ensures
            c@ == no_cycle(now),
    {
        CycleTracking {
            active: false,
            sql: None,
            kind: CycleKind::Simple,
            started: now,
            tag: None,
            rows: 0,
            dropped_pending: 0,
            dropped_total: 0,
            error: None,
        }
    }

    /// Start a cycle.
    pub fn start(&mut self, sql: Option<String>, kind: CycleKind, now: Nanos)
        ensures
            final(self)@ == fresh_cycle(text::opt_text(sql), kind@, now),
    {
        self.active = true;
        self.sql = sql;
        self.kind = kind;
        self.started = now;
        self.tag = None;
        self.rows = 0;
        self.dropped_pending = 0;
        self.dropped_total = 0;
        self.error = None;
    }

    /// End the cycle and report it.
    pub fn finish(&mut self, now: Nanos) -> (r: CycleReport)
        ensures
            r@ == old(self)@.report(now),
            final(self)@ == old(self)@.finished(),
    {
        let mut sql: Option<String> = None;
        std::mem::swap(&mut sql, &mut self.sql);
        let mut kind = CycleKind::Simple;
        std::mem::swap(&mut kind, &mut self.kind);
        let mut tag: Option<String> = None;
        std::mem::swap(&mut tag, &mut self.tag);
        let mut error: Option<CycleError> = None;
        std::mem::swap(&mut error, &mut self.error);
        self.active = false;
        CycleReport {
            sql,
            kind,
            tag,
            rows: self.rows,
            rows_dropped: self.dropped_total,
            error,
            latency: time::elapsed(self.started, now),
        }
    }
}

// ---------------------------------------------------------------------------
// command tags
// ---------------------------------------------------------------------------

/// The position of the last `c`.
pub open spec fn last_index(s: Seq<char>, c: char) -> Option<int>
    decreases s.len(),
{
    if s.len() == 0 {
        None
    } else if s.last() == c {
        Some(s.len() - 1)
    } else {
        last_index(s.drop_last(), c)
    }
}

/// The value of a row count; a count beyond the counters' range reads as 0.
pub open spec fn count_value(digits: Seq<char>) -> nat {
    if text::digits_value(digits) <= u64::MAX {
        text::digits_value(digits)
    } else {
        0
    }
}

/// A tag with `dropped` taken off its trailing row count, not below zero.
/// A tag without a trailing count stays as it is.
pub open spec fn adjusted_tag(tag: Seq<char>, dropped: nat) -> Seq<char> {
    match last_index(tag, ' ') {
        Some(i) => {
            let count = tag.skip(i + 1);
            if count.len() > 0 && text::all_digits(count) {
                let n = count_value(count);
                tag.take(i + 1) + text::decimal(
                    if n >= dropped {
                        (n - dropped) as nat
                    } else {
                        0
                    },
                )
            } else {
                tag
            }
        },
        None => tag,
    }
}

proof fn lemma_last_index(s: Seq<char>, c: char, i: int)
    requires
        0 <= i < s.len(),
        s[i] == c,
        forall|j: int| i < j < s.len() ==> s[j] != c,
    ensures
        last_index(s, c) == Some(i),
    decreases s.len(),
{
    if s.len() - 1 > i {
        lemma_last_index(s.drop_last(), c, i);
    }
}

proof fn lemma_no_last_index(s: Seq<char>, c: char)
    requires
        forall|j: int| 0 <= j < s.len() ==> s[j] != c,
    ensures
        last_index(s, c) is None,
    decreases s.len(),
{
    if s.len() > 0 {
        lemma_no_last_index(s.drop_last(), c);
    }
}

/// Subtract `dropped` from the trailing row count of a command tag
/// (`"SELECT 5"` becomes `"SELECT 3"`); tags without a trailing count are
/// returned unchanged.
pub fn adjust_tag(tag: &str, dropped: u64) -> (r: String)
    ensures
        r@ == adjusted_tag(tag@, dropped as nat),
{
    let chars = text::to_chars(tag);
    let mut i: usize = chars.len();
    while i > 0
        invariant
            i <= chars.len(),
            chars@ == tag@,
            forall|j: int| i <= j < chars.len() ==> chars@[j] != ' ',
        decreases i,
    {
        if chars[i - 1] == ' ' {
            proof {
                lemma_last_index(tag@, ' ', i - 1);
                assert(tag@.skip(i as int) =~= chars@.subrange(i as int, chars@.len() as int));
            }
            if i < chars.len() && text::digits_only(&chars, i, chars.len()) {
                let n: u64 = match text::parse_digits(&chars, i, chars.len()) {
                    Some(v) => if v <= u64::MAX as u128 {
                        v as u64
                    } else {
                        0
                    },
                    None => 0,
                };
                let left: u64 = if n >= dropped {
                    n - dropped
                } else {
                    0
                };
                let mut r = text::from_chars(&chars, 0, i);
                text::push_decimal(&mut r, left as u128);
                assert(chars@.subrange(0, i as int) =~= tag@.take(i as int));
                return r;
            }
            return tag.to_owned();
        }
        i -= 1;
    }
    proof {
        lemma_no_last_index(tag@, ' ');
    }
    tag.to_owned()
}

/// The count of a tag with a row count shrinks by exactly the dropped rows,
/// but not below zero, and its command word stays. A count that does not fit
/// 64 bits counts as zero.
pub proof fn law_adjusted_count(command: Seq<char>, n: nat, dropped: nat)
    ensures
        adjusted_tag(command + seq![' '] + text::decimal(n), dropped) == command + seq![' ']
            + text::decimal(
            (if dropped <= n <= u64::MAX {
                (n - dropped) as nat
            } else {
                0
            }),
        ),
{
    let tag = command + seq![' '] + text::decimal(n);
    let i = command.len() as int;
    text::law_decimal_round_trip(n);
    assert forall|j: int| i < j < tag.len() implies tag[j] != ' ' by {
        assert(tag[j] == text::decimal(n)[j - i - 1]);
        assert(text::is_digit(text::decimal(n)[j - i - 1]));
    }
    lemma_last_index(tag, ' ', i);
    assert(tag.skip(i + 1) =~= text::decimal(n));
    assert(tag.take(i + 1) =~= command + seq![' ']);
}

/// A report says what was tracked, and how long the cycle took; the tracking of
/// an ended cycle is over, and the next cycle starts from nothing.
pub proof fn law_report_says_what_was_tracked(
    c: TrackingView,
    sql: Option<Seq<char>>,
    kind: intercept::KindView,
    error: intercept::CycleErrorView,
    start: Nanos,
    end: Nanos,
)
    ensures
        c.report(end).sql == c.sql,
        c.report(end).kind == c.kind,
        c.report(end).tag == c.tag,
        c.report(end).rows == c.rows,
        c.report(end).rows_dropped == c.dropped_total,
        c.report(end).error == c.error,
        c.started <= end ==> c.report(end).latency == end - c.started,
        c.started > end ==> c.report(end).latency == 0,
        !c.finished().active,
        c.finished().error is None,
        c.finished().tag is None,
        c.finished().sql is None,
        c.with_error(error).error == Some(error),
        c.with_error(error).report(end).rows == c.rows,
        c.with_error(error).report(end).sql == c.sql,
        c.with_error(error).active == c.active,
        ({
            let f = fresh_cycle(sql, kind, start);
            &&& f.active
            &&& f.report(end).sql == sql
            &&& f.report(end).kind == kind
            &&& f.report(end).tag is None
            &&& f.report(end).rows == 0
            &&& f.report(end).rows_dropped == 0
            &&& f.report(end).error is None
            &&& f.dropped_pending == 0
            &&& f.started == start
        }),
        !no_cycle(start).active,
        no_cycle(start).rows == 0,
        no_cycle(start).error is None,
{
}

/// A tag without a row count behind its last space is shown as it is.
pub proof fn law_tag_without_count(tag: Seq<char>, dropped: nat)
    requires
        forall|i: int|
            0 <= i < tag.len() && #[trigger] tag[i] == ' ' ==> i == tag.len() - 1 || exists|j: int|
                i < j < tag.len() && !text::is_digit(#[trigger] tag[j]),
    ensures
        adjusted_tag(tag, dropped) == tag,
{
    match last_index(tag, ' ') {
        Some(i) => {
            lemma_last_index_at(tag, ' ');
            if i < tag.len() - 1 {
                let j = choose|j: int| i < j < tag.len() && !text::is_digit(#[trigger] tag[j]);
                assert(tag.skip(i + 1)[j - i - 1] == tag[j]);
            }
        },
        None => {},
    }
}

proof fn lemma_last_index_at(s: Seq<char>, c: char)
    ensures
        last_index(s, c) matches Some(i) ==> 0 <= i < s.len() && s[i] == c,
    decreases s.len(),
{
    if s.len() > 0 {
        lemma_last_index_at(s.drop_last(), c);
    }
}

} // verus!
