//! Built-in interceptor helpers: ordinary values that hooks call.

use vstd::prelude::*;

use crate::intercept;
use crate::intercept::CycleReport;
use crate::text;
use crate::time::Nanos;
use crate::wire;
use crate::wire::ErrorInfo;

verus! {

// ---------------------------------------------------------------------------
// regular expressions
// ---------------------------------------------------------------------------

/// Whether a pattern is a valid regular expression.
pub uninterp spec fn regex_compiles(pattern: Seq<char>) -> bool;

/// Whether a regular expression matches somewhere in a text.
pub uninterp spec fn regex_matches(pattern: Seq<char>, haystack: Seq<char>) -> bool;

/// A text with every match of a regular expression replaced.
pub uninterp spec fn regex_replaced(
    pattern: Seq<char>,
    haystack: Seq<char>,
    replacement: Seq<char>,
) -> Seq<char>;

/// `regex::Regex::new`: whether the pattern compiles depends on the pattern
/// alone.
#[verifier::external_body]
fn compiles(pattern: &str) -> (r: bool)
    ensures
        r == regex_compiles(pattern@),
{
    regex::Regex::new(pattern).is_ok()
}

/// `regex::Regex::is_match` of the compiled pattern: whether it matches
/// depends on the pattern and the text alone.
#[verifier::external_body]
fn matches_in(pattern: &str, haystack: &str) -> (r: bool)
    requires
        regex_compiles(pattern@),
    ensures
        r == regex_matches(pattern@, haystack@),
{
    regex::Regex::new(pattern).unwrap().is_match(haystack)
}

/// `regex::Regex::replace_all` of the compiled pattern: the result depends on
/// the pattern, the text and the replacement alone.
#[verifier::external_body]
fn replaced_in(pattern: &str, haystack: &str, replacement: &str) -> (r: String)
    requires
        regex_compiles(pattern@),
    ensures
        r@ == regex_replaced(pattern@, haystack@, replacement@),
{
    regex::Regex::new(pattern).unwrap().replace_all(haystack, replacement).into_owned()
}

// ---------------------------------------------------------------------------
// deny list
// ---------------------------------------------------------------------------

/// Deny queries that match any pattern. A pattern is matched at the start of
/// the SQL, in any case, and its `.` also matches line ends.
#[derive(Debug)]
pub struct DenyList {
    patterns: Vec<String>,
    code: String,
    message: String,
}

/// The regular expression that a deny pattern stands for.
pub open spec fn deny_pattern(pattern: Seq<char>) -> Seq<char> {
    "(?is)^"@ + pattern
}

/// Whether all deny patterns are valid.
pub open spec fn deny_patterns_compile(patterns: Seq<Seq<char>>) -> bool {
    forall|i: int| 0 <= i < patterns.len() ==> regex_compiles(deny_pattern(#[trigger] patterns[i]))
}

/// Whether any of these expressions matches the SQL.
pub open spec fn any_matches(expressions: Seq<Seq<char>>, sql: Seq<char>) -> bool {
    exists|i: int| 0 <= i < expressions.len() && regex_matches(#[trigger] expressions[i], sql)
}

impl DenyList {
    #[verifier::type_invariant]
    spec fn inv(&self) -> bool {
        forall|i: int|
            0 <= i < self.patterns@.len() ==> regex_compiles((#[trigger] self.patterns@[i])@)
    }

    /// The regular expressions that deny.
    pub closed spec fn expressions(&self) -> Seq<Seq<char>> {
        text::texts(self.patterns@)
    }

    /// The SQLSTATE code of denials.
    pub closed spec fn spec_code(&self) -> Seq<char> {
        self.code@
    }

    /// The message of denials.
    pub closed spec fn spec_message(&self) -> Seq<char> {
        self.message@
    }

    /// Deny by these patterns.
    pub fn new(patterns: Vec<String>) -> (d: DenyList)
        requires
            deny_patterns_compile(text::texts(patterns@)),
        ensures
            d.expressions() == text::texts(patterns@).map_values(
                |p: Seq<char>| deny_pattern(p),
            ),
            d.spec_code() == "42501"@,
            d.spec_message() == "insufficient privilege (pgferry deny-list)"@,
    {
        let mut compiled: Vec<String> = Vec::new();
        let mut i: usize = 0;
        while i < patterns.len()
            invariant
                i <= patterns.len(),
                compiled.len() == i,
                deny_patterns_compile(text::texts(patterns@)),
                forall|j: int|
                    0 <= j < i ==> (#[trigger] compiled@[j])@ == deny_pattern(patterns@[j]@)
                        && regex_compiles(compiled@[j]@),
            decreases patterns.len() - i,
        {
            let mut p = "(?is)^".to_owned();
            p.append(patterns[i].as_str());
            assert(text::texts(patterns@)[i as int] == patterns@[i as int]@);
            compiled.push(p);
            i += 1;
        }
        let d = DenyList {
            patterns: compiled,
            code: "42501".to_owned(),
            message: "insufficient privilege (pgferry deny-list)".to_owned(),
        };
        assert(d.expressions() =~= text::texts(patterns@).map_values(
            |p: Seq<char>| deny_pattern(p),
        ));
        d
    }

    /// Deny by these patterns; `None` when one of them is not valid.
    pub fn try_new(patterns: Vec<String>) -> (r: Option<DenyList>)
        ensures
            r is Some <==> deny_patterns_compile(text::texts(patterns@)),
            r matches Some(d) ==> {
                &&& d.expressions() == text::texts(patterns@).map_values(
                    |p: Seq<char>| deny_pattern(p),
                )
                &&& d.spec_code() == "42501"@
                &&& d.spec_message() == "insufficient privilege (pgferry deny-list)"@
            },
    {
        let ghost views = text::texts(patterns@);
        let mut i: usize = 0;
        while i < patterns.len()
            invariant
                i <= patterns.len(),
                views == text::texts(patterns@),
                forall|j: int| 0 <= j < i ==> regex_compiles(deny_pattern(#[trigger] views[j])),
            decreases patterns.len() - i,
        {
            let mut p = "(?is)^".to_owned();
            p.append(patterns[i].as_str());
            if !compiles(p.as_str()) {
                assert(!regex_compiles(deny_pattern(views[i as int])));
                return None;
            }
            i += 1;
        }
        Some(DenyList::new(patterns))
    }

    /// Set the SQLSTATE code and message of denials.
    pub fn with_message(self, code: &str, message: &str) -> (d: DenyList)
        ensures
            d.expressions() == self.expressions(),
            d.spec_code() == code@,
            d.spec_message() == message@,
    {
        proof {
            use_type_invariant(&self);
        }
        DenyList { patterns: self.patterns, code: code.to_owned(), message: message.to_owned() }
    }

    /// The denial for SQL of which it is known whether a pattern matched.
    pub fn verdict(&self, matched: bool) -> (r: Option<ErrorInfo>)
        ensures
            match r {
                Some(e) => matched && e@ == wire::error_view(
                    "ERROR"@,
                    self.spec_code(),
                    self.spec_message(),
                ),
                None => !matched,
            },
    {
        if matched {
            Some(ErrorInfo::new("ERROR", self.code.as_str(), self.message.as_str()))
        } else {
            None
        }
    }

    /// The denial error if the SQL matches, `None` to allow.
    pub fn check(&self, sql: &str) -> (r: Option<ErrorInfo>)
        ensures
            match r {
                Some(e) => any_matches(self.expressions(), sql@) && e@ == wire::error_view(
                    "ERROR"@,
                    self.spec_code(),
                    self.spec_message(),
                ),
                None => !any_matches(self.expressions(), sql@),
            },
    {
        proof {
            use_type_invariant(self);
        }
        let ghost expressions = self.expressions();
        let mut i: usize = 0;
        while i < self.patterns.len()
            invariant
                i <= self.patterns.len(),
                expressions == text::texts(self.patterns@),
                expressions == self.expressions(),
                forall|j: int|
                    0 <= j < self.patterns@.len() ==> regex_compiles(
                        (#[trigger] self.patterns@[j])@,
                    ),
                forall|j: int| 0 <= j < i ==> !regex_matches(#[trigger] expressions[j], sql@),
            decreases self.patterns.len() - i,
        {
            assert(expressions[i as int] == self.patterns@[i as int]@);
            if matches_in(self.patterns[i].as_str(), sql) {
                return self.verdict(true);
            }
            i += 1;
        }
        self.verdict(false)
    }
}

impl Clone for DenyList {
    fn clone(&self) -> (d: DenyList)
        ensures
            d.expressions() == self.expressions(),
            d.spec_code() == self.spec_code(),
            d.spec_message() == self.spec_message(),
    {
        proof {
            use_type_invariant(self);
        }
        let mut patterns: Vec<String> = Vec::new();
        let mut i: usize = 0;
        while i < self.patterns.len()
            invariant
                i <= self.patterns.len(),
                patterns@ == self.patterns@.take(i as int),
            decreases self.patterns.len() - i,
        {
            patterns.push(self.patterns[i].clone());
            assert(patterns@ =~= self.patterns@.take(i + 1));
            i += 1;
        }
        assert(patterns@ =~= self.patterns@);
        DenyList { patterns, code: self.code.clone(), message: self.message.clone() }
    }
}

// ---------------------------------------------------------------------------
// rewriting
// ---------------------------------------------------------------------------

/// Rewrite SQL by replacing every match of a pattern.
#[derive(Debug)]
pub struct Rewrite {
    pattern: String,
    replacement: String,
}

impl Rewrite {
    #[verifier::type_invariant]
    spec fn inv(&self) -> bool {
        regex_compiles(self.pattern@)
    }

    /// The pattern.
    pub closed spec fn spec_pattern(&self) -> Seq<char> {
        self.pattern@
    }

    /// The replacement.
    pub closed spec fn spec_replacement(&self) -> Seq<char> {
        self.replacement@
    }

    /// Replace every match of `pattern` by `replacement`.
    pub fn new(pattern: &str, replacement: &str) -> (r: Rewrite)
        requires
            regex_compiles(pattern@),
        ensures
            r.spec_pattern() == pattern@,
            r.spec_replacement() == replacement@,
    {
        Rewrite { pattern: pattern.to_owned(), replacement: replacement.to_owned() }
    }

    /// Replace every match of `pattern` by `replacement`; `None` when the
    /// pattern is not valid.
    pub fn try_new(pattern: &str, replacement: &str) -> (r: Option<Rewrite>)
        ensures
            r is Some <==> regex_compiles(pattern@),
            r matches Some(w) ==> w.spec_pattern() == pattern@ && w.spec_replacement()
                == replacement@,
    {
        if compiles(pattern) {
            Some(Rewrite::new(pattern, replacement))
        } else {
            None
        }
    }

    /// The rewritten SQL if the pattern matches, `None` to leave it.
    pub fn rewrite(&self, sql: &str) -> (r: Option<String>)
        ensures
            text::opt_text(r) == (if regex_matches(self.spec_pattern(), sql@) {
                Some(regex_replaced(self.spec_pattern(), sql@, self.spec_replacement()))
            } else {
                None
            }),
    {
        proof {
            use_type_invariant(self);
        }
        if matches_in(self.pattern.as_str(), sql) {
            Some(replaced_in(self.pattern.as_str(), sql, self.replacement.as_str()))
        } else {
            None
        }
    }
}

impl Clone for Rewrite {
    fn clone(&self) -> (r: Rewrite)
        ensures
            r.spec_pattern() == self.spec_pattern(),
            r.spec_replacement() == self.spec_replacement(),
    {
        proof {
            use_type_invariant(self);
        }
        Rewrite { pattern: self.pattern.clone(), replacement: self.replacement.clone() }
    }
}

// ---------------------------------------------------------------------------
// audit
// ---------------------------------------------------------------------------

/// How many recent reports are kept.
pub const RECENT_REPORTS: usize = 128;

/// Cycle telemetry: aggregated counts and the most recent reports. The counts
/// wrap around.
#[derive(Debug)]
pub struct Audit {
    cycles: u64,
    errors: u64,
    rows: u64,
    latency_total_us: u64,
    recent: Vec<CycleReport>,
}

/// The view of an audit.
#[verifier::ext_equal]
pub struct AuditView {
    pub cycles: u64,
    pub errors: u64,
    pub rows: u64,
    /// Microseconds of all cycles together.
    pub latency_total_us: u64,
    /// The most recent reports, the oldest first.
    pub recent: Seq<intercept::ReportView>,
}

/// The views of a list of reports.
pub open spec fn report_views(s: Seq<CycleReport>) -> Seq<intercept::ReportView> {
    s.map_values(|r: CycleReport| r@)
}

impl View for Audit {
    type V = AuditView;

    closed spec fn view(&self) -> AuditView {
        AuditView {
            cycles: self.cycles,
            errors: self.errors,
            rows: self.rows,
            latency_total_us: self.latency_total_us,
            recent: report_views(self.recent@),
        }
    }
}

/// A wrapping sum.
pub open spec fn wrapping_sum(a: u64, b: u64) -> u64 {
    ((a + b) % 0x1_0000_0000_0000_0000) as u64
}

/// The last reports, as many as are kept.
pub open spec fn most_recent(reports: Seq<intercept::ReportView>) -> Seq<intercept::ReportView> {
    if reports.len() > RECENT_REPORTS {
        reports.skip(reports.len() - RECENT_REPORTS)
    } else {
        reports
    }
}

/// A span of time in whole microseconds, in 64 bits.
pub open spec fn micros(latency: Nanos) -> u64 {
    ((latency / 1000) % 0x1_0000_0000_0000_0000) as u64
}

impl AuditView {
    /// Nothing recorded.
    pub open spec fn nothing() -> AuditView {
        AuditView {
            cycles: 0,
            errors: 0,
            rows: 0,
            latency_total_us: 0,
            recent: Seq::empty(),
        }
    }

    /// With one more report.
    pub open spec fn recorded(self, report: intercept::ReportView) -> AuditView {
        AuditView {
            cycles: wrapping_sum(self.cycles, 1),
            errors: if report.error is Some {
                wrapping_sum(self.errors, 1)
            } else {
                self.errors
            },
            rows: wrapping_sum(self.rows, report.rows),
            latency_total_us: wrapping_sum(self.latency_total_us, micros(report.latency)),
            recent: most_recent(self.recent.push(report)),
        }
    }
}

impl Audit {
    #[verifier::type_invariant]
    spec fn inv(&self) -> bool {
        self.recent@.len() <= RECENT_REPORTS
    }

    /// Nothing recorded.
    pub fn new() -> (a: Audit)
        ensures
            a@ == AuditView::nothing(),
    {
        let a = Audit { cycles: 0, errors: 0, rows: 0, latency_total_us: 0, recent: Vec::new() };
        assert(a@.recent =~= Seq::<intercept::ReportView>::empty());
        a
    }

    /// Record a finished cycle.
    pub fn record(&mut self, report: &CycleReport)
        ensures
            final(self)@ == old(self)@.recorded(report@),
    {
        proof {
            use_type_invariant(&*self);
        }
        self.cycles = self.cycles.wrapping_add(1);
        if report.error.is_some() {
            self.errors = self.errors.wrapping_add(1);
        }
        self.rows = self.rows.wrapping_add(report.rows);
        let us: u64 = ((report.latency / 1000) % 0x1_0000_0000_0000_0000) as u64;
        self.latency_total_us = self.latency_total_us.wrapping_add(us);
        let ghost before = self.recent@;
        let mut recent: Vec<CycleReport> = Vec::new();
        std::mem::swap(&mut recent, &mut self.recent);
        recent.push(report.copy());
        assert(report_views(recent@) =~= report_views(before).push(report@));
        if recent.len() > RECENT_REPORTS {
            let _ = recent.remove(0);
            assert(report_views(recent@) =~= report_views(before).push(report@).skip(1));
        }
        self.recent = recent;
    }

    /// Recorded cycles.
    pub fn cycles(&self) -> (r: u64)
        ensures
            r == self@.cycles,
    {
        self.cycles
    }

    /// Recorded cycles that ended in an error.
    pub fn errors(&self) -> (r: u64)
        ensures
            r == self@.errors,
    {
        self.errors
    }

    /// Rows of all recorded cycles.
    pub fn rows(&self) -> (r: u64)
        ensures
            r == self@.rows,
    {
        self.rows
    }

    /// The most recent reports, the oldest first; at most 128.
    pub fn snapshot_recent(&self) -> (r: Vec<CycleReport>)
        ensures
            report_views(r@) == self@.recent,
            r.len() <= RECENT_REPORTS,
    {
        proof {
            use_type_invariant(self);
        }
        let mut r: Vec<CycleReport> = Vec::new();
        let mut i: usize = 0;
        while i < self.recent.len()
            invariant
                i <= self.recent.len(),
                r@ == self.recent@.take(i as int),
            decreases self.recent.len() - i,
        {
            r.push(self.recent[i].copy());
            assert(r@ =~= self.recent@.take(i + 1));
            i += 1;
        }
        assert(r@ =~= self.recent@);
        r
    }
}

impl Default for Audit {
    fn default() -> (a: Audit)
        ensures
            a@ == AuditView::nothing(),
    {
        Audit::new()
    }
}

/// What was recorded from these reports, in order.
pub open spec fn audit_of(reports: Seq<intercept::ReportView>) -> AuditView
    decreases reports.len(),
{
    if reports.len() == 0 {
        AuditView::nothing()
    } else {
        audit_of(reports.drop_last()).recorded(reports.last())
    }
}

/// How many of the reports have an error.
pub open spec fn count_errors(reports: Seq<intercept::ReportView>) -> nat
    decreases reports.len(),
{
    if reports.len() == 0 {
        0
    } else {
        count_errors(reports.drop_last()) + if reports.last().error is Some {
            1nat
        } else {
            0nat
        }
    }
}

/// The rows of all reports together.
pub open spec fn total_rows(reports: Seq<intercept::ReportView>) -> nat
    decreases reports.len(),
{
    if reports.len() == 0 {
        0
    } else {
        total_rows(reports.drop_last()) + reports.last().rows as nat
    }
}

/// The whole microseconds of all reports, each in 64 bits, together.
pub open spec fn total_micros(reports: Seq<intercept::ReportView>) -> nat
    decreases reports.len(),
{
    if reports.len() == 0 {
        0
    } else {
        total_micros(reports.drop_last()) + micros(reports.last().latency) as nat
    }
}

/// A wrapping sum keeps a total in 64 bits.
proof fn lemma_wrapping_sum(total: nat, a: u64, b: u64)
    requires
        a == total % 0x1_0000_0000_0000_0000,
    ensures
        wrapping_sum(a, b) == (total + b) % 0x1_0000_0000_0000_0000,
{
    vstd::arithmetic::div_mod::lemma_add_mod_noop(
        total as int,
        b as int,
        0x1_0000_0000_0000_0000,
    );
}

/// An audit counts every report that it was given, also past those it keeps:
/// the cycles are the reports, the errors are the reports with an error, and
/// the rows and the time are the sums over all reports, each in 64 bits. Rows
/// that were dropped do not count, and there are no more errors than cycles.
pub proof fn law_audit_totals(reports: Seq<intercept::ReportView>)
    ensures
        audit_of(reports).cycles == reports.len() % 0x1_0000_0000_0000_0000,
        audit_of(reports).errors == count_errors(reports) % 0x1_0000_0000_0000_0000,
        audit_of(reports).rows == total_rows(reports) % 0x1_0000_0000_0000_0000,
        audit_of(reports).latency_total_us == total_micros(reports) % 0x1_0000_0000_0000_0000,
        count_errors(reports) <= reports.len(),
        reports.len() <= u64::MAX ==> audit_of(reports).errors <= audit_of(reports).cycles,
    decreases reports.len(),
{
    if reports.len() > 0 {
        let init = reports.drop_last();
        let before = audit_of(init);
        law_audit_totals(init);
        lemma_wrapping_sum(init.len(), before.cycles, 1);
        lemma_wrapping_sum(count_errors(init), before.errors, 1);
        lemma_wrapping_sum(total_rows(init), before.rows, reports.last().rows);
        lemma_wrapping_sum(
            total_micros(init),
            before.latency_total_us,
            micros(reports.last().latency),
        );
    }
}

/// An audit keeps exactly the last reports that it was given, in order.
pub proof fn law_audit_keeps_most_recent(reports: Seq<intercept::ReportView>)
    ensures
        audit_of(reports).recent == most_recent(reports),
    decreases reports.len(),
{
    if reports.len() > 0 {
        let before = reports.drop_last();
        law_audit_keeps_most_recent(before);
        assert(most_recent(most_recent(before).push(reports.last())) =~= most_recent(reports));
    } else {
        assert(most_recent(reports) =~= Seq::<intercept::ReportView>::empty());
    }
}

proof fn lemma_error_count(reports: Seq<intercept::ReportView>)
    ensures
        count_errors(reports) == reports.filter(|r: intercept::ReportView| r.error is Some).len(),
    decreases reports.len(),
{
    reveal(Seq::filter);
    if reports.len() > 0 {
        lemma_error_count(reports.drop_last());
    }
}

/// An audit counts every cycle that was reported, as failed exactly those with
/// an error, and adds up their rows and their latencies in whole microseconds:
/// what two batches add up to is the sum of both.
pub proof fn law_audit_adds_up(
    a: Seq<intercept::ReportView>,
    b: Seq<intercept::ReportView>,
    r: intercept::ReportView,
)
    ensures
        count_errors(a) == a.filter(|r: intercept::ReportView| r.error is Some).len(),
        a.len() <= u64::MAX ==> audit_of(a).cycles == a.len(),
        a.len() <= u64::MAX ==> audit_of(a).errors == a.filter(
            |r: intercept::ReportView| r.error is Some,
        ).len(),
        total_rows(a + b) == total_rows(a) + total_rows(b),
        total_rows(seq![r]) == r.rows,
        total_micros(a + b) == total_micros(a) + total_micros(b),
        r.latency / 1000 <= u64::MAX ==> total_micros(seq![r]) == r.latency / 1000,
        total_rows(a) <= u64::MAX ==> audit_of(a).rows == total_rows(a),
        total_micros(a) <= u64::MAX ==> audit_of(a).latency_total_us == total_micros(a),
{
    lemma_error_count(a);
    law_audit_totals(a);
    lemma_totals_append(a, b);
    reveal_with_fuel(total_rows, 2);
    reveal_with_fuel(total_micros, 2);
    assert(seq![r].drop_last() =~= seq![]);
    if a.len() <= u64::MAX {
        vstd::arithmetic::div_mod::lemma_small_mod(a.len(), 0x1_0000_0000_0000_0000);
        vstd::arithmetic::div_mod::lemma_small_mod(count_errors(a), 0x1_0000_0000_0000_0000);
    }
    if total_rows(a) <= u64::MAX {
        vstd::arithmetic::div_mod::lemma_small_mod(total_rows(a), 0x1_0000_0000_0000_0000);
    }
    if total_micros(a) <= u64::MAX {
        vstd::arithmetic::div_mod::lemma_small_mod(total_micros(a), 0x1_0000_0000_0000_0000);
    }
}

proof fn lemma_totals_append(a: Seq<intercept::ReportView>, b: Seq<intercept::ReportView>)
    ensures
        total_rows(a + b) == total_rows(a) + total_rows(b),
        total_micros(a + b) == total_micros(a) + total_micros(b),
    decreases b.len(),
{
    if b.len() == 0 {
        assert(a + b =~= a);
    } else {
        lemma_totals_append(a, b.drop_last());
        assert((a + b).drop_last() =~= a + b.drop_last());
    }
}

/// The reports that an audit keeps are its last ones: all of them while there
/// are few, and a full set of the latest once there are more.
pub proof fn law_recent_reports(reports: Seq<intercept::ReportView>)
    ensures
        ({
            let recent = audit_of(reports).recent;
            &&& recent.len() == (if reports.len() <= 128 {
                reports.len()
            } else {
                128
            })
            &&& forall|i: int|
                0 <= i < recent.len() ==> #[trigger] recent[i] == reports[reports.len()
                    - recent.len() + i]
        }),
{
    law_audit_keeps_most_recent(reports);
}

/// A deny list denies what any one of its patterns matches, and nothing else;
/// where a pattern stands in the list does not matter. A pattern is matched from
/// the start of the statement, without regard to case, over line ends.
pub proof fn law_denied_by_any(
    a: Seq<Seq<char>>,
    b: Seq<Seq<char>>,
    expression: Seq<char>,
    pattern: Seq<char>,
    sql: Seq<char>,
)
    ensures
        any_matches(a + b, sql) <==> any_matches(a, sql) || any_matches(b, sql),
        any_matches(seq![expression], sql) <==> regex_matches(expression, sql),
        !any_matches(seq![], sql),
        any_matches((a + seq![pattern] + b).map_values(|p: Seq<char>| deny_pattern(p)), sql)
            <== regex_matches("(?is)^"@ + pattern, sql),
{
    let whole = a + b;
    if any_matches(a, sql) {
        let i = choose|i: int| 0 <= i < a.len() && regex_matches(#[trigger] a[i], sql);
        assert(whole[i] == a[i]);
    }
    if any_matches(b, sql) {
        let i = choose|i: int| 0 <= i < b.len() && regex_matches(#[trigger] b[i], sql);
        assert(whole[a.len() + i] == b[i]);
    }
    if any_matches(whole, sql) {
        let i = choose|i: int| 0 <= i < whole.len() && regex_matches(#[trigger] whole[i], sql);
        if i < a.len() {
            assert(whole[i] == a[i]);
        } else {
            assert(whole[i] == b[i - a.len()]);
        }
    }
    assert(seq![expression][0] == expression);
    if any_matches(seq![expression], sql) {
        let one = seq![expression];
        let i = choose|i: int| 0 <= i < one.len() && regex_matches(#[trigger] one[i], sql);
        assert(i == 0);
    }
    if regex_matches("(?is)^"@ + pattern, sql) {
        let list = (a + seq![pattern] + b).map_values(|p: Seq<char>| deny_pattern(p));
        assert(list[a.len() as int] == "(?is)^"@ + pattern);
    }
}

} // verus!
