//! Routing built-ins: values that a routing hook calls.
//!
//! - [`EndpointGroup`]: a set of endpoints with passive health tracking
//!   (dead after a number of consecutive failures, retried after a cooldown)
//!   and ways to select one.
//! - [`RwSplit`]: steers reads to replicas and writes to the primary.
//! - [`FailoverRouter`]: the default for a route with several endpoints.

use vstd::prelude::*;

use crate::config;
use crate::config::{EndpointConfig, EndpointId};
use crate::intercept::{RetryDecision, RoutingInfo, UpstreamError};
use crate::text;
use crate::textmap::TextMap;
use crate::time;
use crate::time::Nanos;

verus! {

/// Default failures before an endpoint is marked dead.
pub const DEFAULT_FAILURE_THRESHOLD: u32 = 2;

/// Default time after which a dead endpoint is retried: 30 seconds.
pub const DEFAULT_REVIVE_AFTER: Nanos = 30_000_000_000;

/// The health of an endpoint.
#[derive(Debug, Clone, Copy, PartialEq, Eq, Structural)]
pub enum Health {
    /// Alive, with this many failures in a row.
    Alive { failures: u32 },
    /// Dead since this time.
    Dead { since: Nanos },
}

/// A health-checked set of endpoints.
#[derive(Debug)]
pub struct EndpointGroup {
    health: TextMap<Health>,
    failure_threshold: u32,
    revive_after: Nanos,
}

/// The view of an endpoint group.
#[verifier::ext_equal]
pub struct GroupView {
    /// The health of the endpoints that are followed.
    pub health: Map<Seq<char>, Health>,
    pub failure_threshold: u32,
    pub revive_after: Nanos,
}

impl View for EndpointGroup {
    type V = GroupView;

    closed spec fn view(&self) -> GroupView {
        GroupView {
            health: self.health@,
            failure_threshold: self.failure_threshold,
            revive_after: self.revive_after,
        }
    }
}

/// The health after one more failure.
pub open spec fn after_failure(health: Health, threshold: u32, now: Nanos) -> Health {
    match health {
        Health::Alive { failures } => if failures + 1 >= threshold {
            Health::Dead { since: now }
        } else {
            Health::Alive { failures: (failures + 1) as u32 }
        },
        Health::Dead { .. } => Health::Dead { since: now },
    }
}

impl GroupView {
    /// Whether it takes at least one failure for an endpoint to die.
    pub open spec fn valid(self) -> bool {
        self.failure_threshold >= 1
    }

    /// Whether this group follows just these ids, all of them alive and with
    /// the default limits.
    pub open spec fn fresh(self, ids: Seq<Seq<char>>) -> bool {
        &&& forall|id: Seq<char>| #[trigger] self.health.contains_key(id) <==> ids.contains(id)
        &&& forall|id: Seq<char>| #[trigger]
            self.health.contains_key(id) ==> self.health[id] == (Health::Alive { failures: 0 })
        &&& self.failure_threshold == DEFAULT_FAILURE_THRESHOLD
        &&& self.revive_after == DEFAULT_REVIVE_AFTER
    }

    /// Whether an endpoint counts as alive. An endpoint that is not followed
    /// does, and so does a dead one whose cooldown has passed.
    pub open spec fn alive(self, id: Seq<char>, now: Nanos) -> bool {
        self.health.contains_key(id) ==> match self.health[id] {
            Health::Alive { .. } => true,
            Health::Dead { since } => time::elapsed_at(since, now) >= self.revive_after,
        }
    }

    /// The health of an endpoint; one that is not followed is alive.
    pub open spec fn health_of(self, id: Seq<char>) -> Health {
        if self.health.contains_key(id) {
            self.health[id]
        } else {
            Health::Alive { failures: 0 }
        }
    }

    /// The group after a failure of an endpoint.
    pub open spec fn failed(self, id: Seq<char>, now: Nanos) -> GroupView {
        GroupView {
            health: self.health.insert(
                id,
                after_failure(self.health_of(id), self.failure_threshold, now),
            ),
            ..self
        }
    }

    /// The group after failures of an endpoint at these times.
    pub open spec fn failed_at(self, id: Seq<char>, times: Seq<Nanos>) -> GroupView
        decreases times.len(),
    {
        if times.len() == 0 {
            self
        } else {
            self.failed_at(id, times.drop_last()).failed(id, times.last())
        }
    }

    /// The group after a success of an endpoint.
    pub open spec fn succeeded(self, id: Seq<char>) -> GroupView {
        if self.health.contains_key(id) {
            GroupView { health: self.health.insert(id, Health::Alive { failures: 0 }), ..self }
        } else {
            self
        }
    }

    /// The ids that count as alive, in their order.
    pub open spec fn alive_ids(self, ids: Seq<Seq<char>>, now: Nanos) -> Seq<Seq<char>> {
        ids.filter(|id: Seq<char>| self.alive(id, now))
    }
}

impl EndpointGroup {
    /// The threshold is at least one, and a failure count can always be
    /// counted further.
    #[verifier::type_invariant]
    spec fn inv(&self) -> bool {
        &&& self.failure_threshold >= 1
        &&& forall|id: Seq<char>| #[trigger]
            self.health@.contains_key(id) ==> (self.health@[id] matches Health::Alive { failures }
                ==> failures < u32::MAX)
    }

    /// Follow the health of the given endpoint ids; all are alive.
    pub fn new(ids: Vec<String>) -> (g: Self)
        ensures
            g@.fresh(text::texts(ids@)),
    {
        let mut health: TextMap<Health> = TextMap::new();
        let mut i: usize = 0;
        let ghost names = text::texts(ids@);
        while i < ids.len()
            invariant
                i <= ids.len(),
                names == text::texts(ids@),
                forall|id: Seq<char>| #[trigger]
                    health@.contains_key(id) <==> names.take(i as int).contains(id),
                forall|id: Seq<char>| #[trigger]
                    health@.contains_key(id) ==> health@[id] == (Health::Alive { failures: 0 }),
            decreases ids.len() - i,
        {
            let ghost before = health@;
            health.insert(ids[i].clone(), Health::Alive { failures: 0 });
            proof {
                let prefix = names.take(i as int);
                let next = names.take(i + 1);
                assert(next =~= prefix.push(names[i as int]));
                assert forall|id: Seq<char>| #[trigger]
                    health@.contains_key(id) <==> next.contains(id) by {
                    if prefix.contains(id) {
                        let k = choose|k: int| 0 <= k < prefix.len() && prefix[k] == id;
                        assert(next[k] == id);
                    }
                    if next.contains(id) && id != names[i as int] {
                        let k = choose|k: int| 0 <= k < next.len() && next[k] == id;
                        assert(prefix[k] == id);
                    }
                    assert(next[i as int] == names[i as int]);
                    assert(before.contains_key(id) <==> prefix.contains(id));
                }
            }
            i += 1;
        }
        assert(names.take(ids.len() as int) =~= names);
        EndpointGroup {
            health,
            failure_threshold: DEFAULT_FAILURE_THRESHOLD,
            revive_after: DEFAULT_REVIVE_AFTER,
        }
    }

    /// Follow the health of a route's endpoints.
    pub fn from_endpoints(endpoints: &[EndpointConfig]) -> (g: Self)
        ensures
            g@.fresh(config::endpoint_ids(endpoints@)),
    {
        let mut ids: Vec<String> = Vec::new();
        let mut i: usize = 0;
        while i < endpoints.len()
            invariant
                i <= endpoints.len(),
                ids.len() == i,
                forall|j: int| 0 <= j < i ==> (#[trigger] ids@[j])@ == endpoints@[j].id@,
            decreases endpoints.len() - i,
        {
            ids.push(endpoints[i].id.clone());
            i += 1;
        }
        assert(text::texts(ids@) =~= config::endpoint_ids(endpoints@));
        Self::new(ids)
    }

    /// Set the number of consecutive failures before an endpoint is dead; at
    /// least one.
    pub fn with_failure_threshold(self, threshold: u32) -> (g: Self)
        ensures
            g@ == (GroupView {
                failure_threshold: if threshold == 0 {
                    1
                } else {
                    threshold
                },
                ..self@
            }),
    {
        proof {
            use_type_invariant(&self);
        }
        let failure_threshold: u32 = if threshold == 0 {
            1
        } else {
            threshold
        };
        EndpointGroup { health: self.health, failure_threshold, revive_after: self.revive_after }
    }

    /// Set how long a dead endpoint stays dead before being retried.
    pub fn with_revive_after(self, after: Nanos) -> (g: Self)
        ensures
            g@ == (GroupView { revive_after: after, ..self@ }),
    {
        proof {
            use_type_invariant(&self);
        }
        EndpointGroup {
            health: self.health,
            failure_threshold: self.failure_threshold,
            revive_after: after,
        }
    }

    /// Whether `id` counts as alive at the time `now`.
    pub fn is_alive(&self, id: &str, now: Nanos) -> (r: bool)
        ensures
            r == self@.alive(id@, now),
    {
        match self.health.get(id) {
            None => true,
            Some(health) => match *health {
                Health::Alive { .. } => true,
                Health::Dead { since } => time::elapsed(since, now) >= self.revive_after,
            },
        }
    }

    /// Record a failure: after the threshold of consecutive failures the
    /// endpoint is dead for the cooldown. A failure of a dead endpoint starts
    /// the cooldown anew.
    pub fn report_failure(&mut self, id: &str, now: Nanos)
        ensures
            final(self)@ == old(self)@.failed(id@, now),
            old(self)@.valid(),
    {
        proof {
            use_type_invariant(&*self);
        }
        let current = match self.health.get(id) {
            Some(health) => *health,
            None => Health::Alive { failures: 0 },
        };
        let next = match current {
            Health::Alive { failures } => {
                let n: u32 = failures + 1;
                if n >= self.failure_threshold {
                    Health::Dead { since: now }
                } else {
                    Health::Alive { failures: n }
                }
            },
            Health::Dead { .. } => Health::Dead { since: now },
        };
        let mut health: TextMap<Health> = TextMap::new();
        std::mem::swap(&mut health, &mut self.health);
        health.insert(id.to_owned(), next);
        self.health = health;
    }

    /// Record a success: clears the failure count, and revives the dead.
    pub fn report_success(&mut self, id: &str)
        ensures
            final(self)@ == old(self)@.succeeded(id@),
    {
        proof {
            use_type_invariant(&*self);
        }
        if self.health.get(id).is_some() {
            let mut health: TextMap<Health> = TextMap::new();
            std::mem::swap(&mut health, &mut self.health);
            health.insert(id.to_owned(), Health::Alive { failures: 0 });
            self.health = health;
        }
    }

    /// The first alive endpoint in configuration order, or `None` when all
    /// are dead. The configured order defines priority: put the primary
    /// first.
    pub fn select_first_alive(&self, info: &RoutingInfo<'_>, now: Nanos) -> (r: Option<EndpointId>)
        ensures
            text::opt_text(r) == first_alive(self@, info.ids(), now),
    {
        let ghost ids = info.ids();
        let endpoints = info.endpoints();
        let mut i: usize = 0;
        while i < endpoints.len()
            invariant
                i <= endpoints.len(),
                endpoints@ == info.spec_endpoints(),
                ids == info.ids(),
                first_alive(self@, ids.take(i as int), now) is None,
            decreases endpoints.len() - i,
        {
            assert(ids.take(i + 1).drop_last() =~= ids.take(i as int));
            if self.is_alive(endpoints[i].id.as_str(), now) {
                proof {
                    lemma_first_alive_extends(self@, ids, now, i + 1);
                }
                return Some(endpoints[i].id.clone());
            }
            i += 1;
        }
        assert(ids.take(endpoints.len() as int) =~= ids);
        None
    }

    /// One of the alive endpoints, picked by `jitter` (a number that changes
    /// from call to call); `None` when all are dead.
    pub fn select_round_robin(&self, info: &RoutingInfo<'_>, jitter: usize, now: Nanos) -> (r:
        Option<EndpointId>)
        ensures
            ({
                let alive = self@.alive_ids(info.ids(), now);
                if alive.len() == 0 {
                    r is None
                } else {
                    text::opt_text(r) == Some(alive[jitter as int % alive.len() as int])
                }
            }),
    {
        let ghost ids = info.ids();
        let endpoints = info.endpoints();
        let mut alive: Vec<usize> = Vec::new();
        let mut i: usize = 0;
        let ghost test = |id: Seq<char>| self@.alive(id, now);
        assert(ids.take(0).filter(test) =~= Seq::<Seq<char>>::empty());
        while i < endpoints.len()
            invariant
                i <= endpoints.len(),
                endpoints@ == info.spec_endpoints(),
                ids == info.ids(),
                test == (|id: Seq<char>| self@.alive(id, now)),
                alive@.len() == ids.take(i as int).filter(test).len(),
                forall|j: int|
                    0 <= j < alive@.len() ==> (#[trigger] alive@[j]) < endpoints@.len() && ids[alive@[j] as int]
                        == ids.take(i as int).filter(test)[j],
            decreases endpoints.len() - i,
        {
            proof {
                let next = ids.take(i + 1);
                assert(next.drop_last() =~= ids.take(i as int));
                assert(next.last() == ids[i as int]);
                reveal(Seq::filter);
            }
            if self.is_alive(endpoints[i].id.as_str(), now) {
                alive.push(i);
            }
            i += 1;
        }
        assert(ids.take(endpoints.len() as int) =~= ids);
        if alive.len() == 0 {
            return None;
        }
        let pick: usize = alive[jitter % alive.len()];
        Some(endpoints[pick].id.clone())
    }
}

/// The first id that counts as alive.
pub open spec fn first_alive(group: GroupView, ids: Seq<Seq<char>>, now: Nanos) -> Option<Seq<char>>
    decreases ids.len(),
{
    if ids.len() == 0 {
        None
    } else {
        match first_alive(group, ids.drop_last(), now) {
            Some(id) => Some(id),
            None => if group.alive(ids.last(), now) {
                Some(ids.last())
            } else {
                None
            },
        }
    }
}

proof fn lemma_first_alive_extends(group: GroupView, ids: Seq<Seq<char>>, now: Nanos, k: int)
    requires
        0 <= k <= ids.len(),
        first_alive(group, ids.take(k), now) is Some,
    ensures
        first_alive(group, ids, now) == first_alive(group, ids.take(k), now),
    decreases ids.len() - k,
{
    if k < ids.len() {
        assert(ids.take(k + 1).drop_last() =~= ids.take(k));
        lemma_first_alive_extends(group, ids, now, k + 1);
    } else {
        assert(ids.take(k) =~= ids);
    }
}

// ---------------------------------------------------------------------------
// reads and writes
// ---------------------------------------------------------------------------

/// Read/write preference for [`RwSplit`].
#[derive(Debug, Clone, Copy, PartialEq, Eq, Structural)]
pub enum ReadPreference {
    /// All traffic to the primary.
    PrimaryOnly,
    /// Reads to the first alive replica; writes to the primary.
    ReplicaFirst,
}

/// Decides whether SQL is a read.
pub trait Classifier {
    /// Whether the classifier can be asked.
    spec fn ready(&self) -> bool;

    /// Whether the classifier may give this answer.
    spec fn may_answer(&self, sql: Seq<char>, read: bool) -> bool;

    /// Whether the SQL is a read.
    fn is_read(&self, sql: &str) -> (r: bool)
        requires
            self.ready(),
        ensures
            self.may_answer(sql@, r),
    ;
}

/// The default classifier: a leading `SELECT`, `SHOW` or `TABLE`, optionally
/// behind whitespace, comments and opening parentheses, is a read.
#[derive(Debug, Clone, Copy, PartialEq, Eq, Structural)]
pub struct LeadingKeyword;

impl Classifier for LeadingKeyword {
    open spec fn ready(&self) -> bool {
        true
    }

    open spec fn may_answer(&self, sql: Seq<char>, read: bool) -> bool {
        read == reads(sql)
    }

    fn is_read(&self, sql: &str) -> (r: bool) {
        default_is_read(sql)
    }
}

/// A classifier that asks a function.
#[derive(Clone, Copy)]
pub struct ByFunction<F> {
    pub f: F,
}

impl<F: Fn(&str) -> bool> Classifier for ByFunction<F> {
    open spec fn ready(&self) -> bool {
        forall|s: &str| call_requires(self.f, (s,))
    }

    open spec fn may_answer(&self, sql: Seq<char>, read: bool) -> bool {
        exists|s: &str| s@ == sql && call_ensures(self.f, (s,), read)
    }

    fn is_read(&self, sql: &str) -> (r: bool) {
        (self.f)(sql)
    }
}

/// What follows the first end of line.
pub open spec fn after_line(s: Seq<char>) -> Seq<char>
    decreases s.len(),
{
    if s.len() == 0 {
        s
    } else if s[0] == '\n' {
        s.skip(1)
    } else {
        after_line(s.skip(1))
    }
}

/// What follows the first end of a block comment.
pub open spec fn after_block(s: Seq<char>) -> Seq<char>
    decreases s.len(),
{
    if s.len() == 0 {
        s
    } else if s.len() > 1 && s[0] == '*' && s[1] == '/' {
        s.skip(2)
    } else {
        after_block(s.skip(1))
    }
}

proof fn lemma_after_shorter(s: Seq<char>)
    ensures
        after_line(s).len() <= s.len(),
        after_block(s).len() <= s.len(),
    decreases s.len(),
{
    if s.len() > 0 {
        lemma_after_shorter(s.skip(1));
    }
}

/// The SQL without the whitespace and comments in front of it.
pub open spec fn without_comments(s: Seq<char>) -> Seq<char>
    decreases s.len(),
    via without_comments_ends
{
    if s.len() > 0 && text::is_white_space(s[0]) {
        without_comments(s.skip(1))
    } else if s.len() > 1 && s[0] == '-' && s[1] == '-' {
        without_comments(after_line(s.skip(2)))
    } else if s.len() > 1 && s[0] == '/' && s[1] == '*' {
        without_comments(after_block(s.skip(2)))
    } else {
        s
    }
}

#[via_fn]
proof fn without_comments_ends(s: Seq<char>) {
    if s.len() > 1 {
        lemma_after_shorter(s.skip(2));
    }
}

/// Whether a character ends a word.
pub open spec fn ends_word(c: char) -> bool {
    text::is_white_space(c) || c == '('
}

/// The text without the word ends in front of it.
pub open spec fn from_word(s: Seq<char>) -> Seq<char>
    decreases s.len(),
{
    if s.len() > 0 && ends_word(s[0]) {
        from_word(s.skip(1))
    } else {
        s
    }
}

/// The word at the start of a text.
pub open spec fn word_at(s: Seq<char>) -> Seq<char>
    decreases s.len(),
{
    if s.len() == 0 || ends_word(s[0]) {
        Seq::empty()
    } else {
        seq![s[0]] + word_at(s.skip(1))
    }
}

/// Whether a word spells a keyword, in either case.
pub open spec fn spells(word: Seq<char>, upper: Seq<char>, lower: Seq<char>) -> bool {
    &&& word.len() == upper.len()
    &&& word.len() == lower.len()
    &&& forall|i: int| 0 <= i < word.len() ==> (#[trigger] word[i] == upper[i] || word[i] == lower[i])
}

/// The first word of the SQL behind whitespace and comments.
pub open spec fn leading_word(sql: Seq<char>) -> Seq<char> {
    word_at(from_word(without_comments(sql)))
}

/// Whether SQL counts as a read.
pub open spec fn reads(sql: Seq<char>) -> bool {
    let word = leading_word(sql);
    ||| spells(word, "SELECT"@, "select"@)
    ||| spells(word, "SHOW"@, "show"@)
    ||| spells(word, "TABLE"@, "table"@)
}

/// Skip leading whitespace and comments; the result is a position in `chars`.
fn strip_comments(chars: &Vec<char>) -> (at: usize)
    ensures
        at <= chars.len(),
        chars@.skip(at as int) == without_comments(chars@),
{
    let mut at: usize = 0;
    assert(chars@.skip(0) =~= chars@);
    loop
        invariant_except_break
            at <= chars.len(),
            without_comments(chars@.skip(at as int)) == without_comments(chars@),
        ensures
            at <= chars.len(),
            chars@.skip(at as int) == without_comments(chars@),
        decreases chars.len() - at,
    {
        let ghost s = chars@.skip(at as int);
        if at < chars.len() && text::white_space(chars[at]) {
            assert(s.skip(1) =~= chars@.skip(at + 1));
            at += 1;
        } else if chars.len() - at > 1 && chars[at] == '-' && chars[at + 1] == '-' {
            assert(s.skip(2) =~= chars@.skip(at + 2));
            at = line_end(chars, at + 2);
        } else if chars.len() - at > 1 && chars[at] == '/' && chars[at + 1] == '*' {
            assert(s.skip(2) =~= chars@.skip(at + 2));
            at = block_end(chars, at + 2);
        } else {
            break;
        }
    }
    at
}

fn line_end(chars: &Vec<char>, from: usize) -> (at: usize)
    requires
        from <= chars.len(),
    ensures
        from <= at <= chars.len(),
        chars@.skip(at as int) == after_line(chars@.skip(from as int)),
{
    let mut at: usize = from;
    while at < chars.len()
        invariant
            from <= at <= chars.len(),
            after_line(chars@.skip(at as int)) == after_line(chars@.skip(from as int)),
        decreases chars.len() - at,
    {
        assert(chars@.skip(at as int).skip(1) =~= chars@.skip(at + 1));
        if chars[at] == '\n' {
            return at + 1;
        }
        at += 1;
    }
    at
}

fn block_end(chars: &Vec<char>, from: usize) -> (at: usize)
    requires
        from <= chars.len(),
    ensures
        from <= at <= chars.len(),
        chars@.skip(at as int) == after_block(chars@.skip(from as int)),
{
    let mut at: usize = from;
    while at < chars.len()
        invariant
            from <= at <= chars.len(),
            after_block(chars@.skip(at as int)) == after_block(chars@.skip(from as int)),
        decreases chars.len() - at,
    {
        assert(chars@.skip(at as int).skip(1) =~= chars@.skip(at + 1));
        if at + 1 < chars.len() && chars[at] == '*' && chars[at + 1] == '/' {
            assert(chars@.skip(at as int).skip(2) =~= chars@.skip(at + 2));
            return at + 2;
        }
        at += 1;
    }
    at
}

fn ends_word_here(c: char) -> (r: bool)
    ensures
        r == ends_word(c),
{
    text::white_space(c) || c == '('
}

/// Whether `chars[from..to]` spells a keyword, in either case.
fn spells_here(chars: &Vec<char>, from: usize, to: usize, upper: &str, lower: &str) -> (r: bool)
    requires
        from <= to <= chars.len(),
        upper@.len() == lower@.len(),
    ensures
        r == spells(chars@.subrange(from as int, to as int), upper@, lower@),
{
    let ghost word = chars@.subrange(from as int, to as int);
    let up = text::to_chars(upper);
    let low = text::to_chars(lower);
    if up.len() != to - from {
        return false;
    }
    let mut i: usize = 0;
    while i < up.len()
        invariant
            i <= up.len(),
            up@ == upper@,
            low@ == lower@,
            up@.len() == low@.len(),
            from <= to <= chars.len(),
            up.len() == to - from,
            word == chars@.subrange(from as int, to as int),
            forall|j: int| 0 <= j < i ==> (#[trigger] word[j] == upper@[j] || word[j] == lower@[j]),
        decreases up.len() - i,
    {
        let c = chars[from + i];
        if c != up[i] && c != low[i] {
            assert(word[i as int] == c);
            return false;
        }
        assert(word[i as int] == c);
        i += 1;
    }
    true
}

/// Whether SQL counts as a read by its leading keyword.
pub fn default_is_read(sql: &str) -> (r: bool)
    ensures
        r == reads(sql@),
{
    let chars = text::to_chars(sql);
    let start: usize = strip_comments(&chars);
    let mut from: usize = start;
    while from < chars.len() && ends_word_here(chars[from])
        invariant
            start <= from <= chars.len(),
            from_word(chars@.skip(from as int)) == from_word(chars@.skip(start as int)),
        decreases chars.len() - from,
    {
        assert(chars@.skip(from as int).skip(1) =~= chars@.skip(from + 1));
        from += 1;
    }
    let ghost body = chars@.skip(from as int);
    assert(body == from_word(without_comments(sql@)));
    let mut to: usize = from;
    assert(chars@.subrange(from as int, from as int) =~= Seq::<char>::empty());
    assert(Seq::<char>::empty() + word_at(body) =~= word_at(body));
    while to < chars.len() && !ends_word_here(chars[to])
        invariant
            from <= to <= chars.len(),
            body == chars@.skip(from as int),
            chars@.subrange(from as int, to as int) + word_at(chars@.skip(to as int)) == word_at(
                body,
            ),
        decreases chars.len() - to,
    {
        proof {
            let rest = chars@.skip(to as int);
            assert(rest.skip(1) =~= chars@.skip(to + 1));
            assert(chars@.subrange(from as int, to + 1) + word_at(rest.skip(1)) =~= chars@.subrange(
                from as int,
                to as int,
            ) + (seq![rest[0]] + word_at(rest.skip(1))));
        }
        to += 1;
    }
    proof {
        assert(word_at(chars@.skip(to as int)) =~= Seq::<char>::empty());
        assert(chars@.subrange(from as int, to as int) =~= word_at(body));
        reveal_strlit("SELECT");
        reveal_strlit("select");
        reveal_strlit("SHOW");
        reveal_strlit("show");
        reveal_strlit("TABLE");
        reveal_strlit("table");
    }
    spells_here(&chars, from, to, "SELECT", "select") || spells_here(
        &chars,
        from,
        to,
        "SHOW",
        "show",
    ) || spells_here(&chars, from, to, "TABLE", "table")
}

/// Routes reads to a replica (when one is alive) and writes to the primary.
#[derive(Debug)]
pub struct RwSplit<K: Classifier> {
    group: EndpointGroup,
    primary: EndpointId,
    preference: ReadPreference,
    classifier: K,
}

/// The first id that is not the primary and counts as alive.
pub open spec fn first_replica(
    group: GroupView,
    ids: Seq<Seq<char>>,
    primary: Seq<char>,
    now: Nanos,
) -> Option<Seq<char>>
    decreases ids.len(),
{
    if ids.len() == 0 {
        None
    } else {
        match first_replica(group, ids.drop_last(), primary, now) {
            Some(id) => Some(id),
            None => if ids.last() != primary && group.alive(ids.last(), now) {
                Some(ids.last())
            } else {
                None
            },
        }
    }
}

proof fn lemma_first_replica_extends(
    group: GroupView,
    ids: Seq<Seq<char>>,
    primary: Seq<char>,
    now: Nanos,
    k: int,
)
    requires
        0 <= k <= ids.len(),
        first_replica(group, ids.take(k), primary, now) is Some,
    ensures
        first_replica(group, ids, primary, now) == first_replica(group, ids.take(k), primary, now),
    decreases ids.len() - k,
{
    if k < ids.len() {
        assert(ids.take(k + 1).drop_last() =~= ids.take(k));
        lemma_first_replica_extends(group, ids, primary, now, k + 1);
    } else {
        assert(ids.take(k) =~= ids);
    }
}

/// Where a read or a write goes.
pub open spec fn split_route(
    group: GroupView,
    ids: Seq<Seq<char>>,
    primary: Seq<char>,
    preference: ReadPreference,
    is_read: bool,
    now: Nanos,
) -> Seq<char> {
    if !is_read || preference == ReadPreference::PrimaryOnly {
        primary
    } else {
        match first_replica(group, ids, primary, now) {
            Some(id) => id,
            None => primary,
        }
    }
}

impl RwSplit<LeadingKeyword> {
    /// Split by leading keyword, reads to replicas first.
    pub fn new(group: EndpointGroup, primary: String) -> (r: Self)
        ensures
            r.spec_group() == group@,
            r.spec_primary() == primary@,
            r.spec_preference() == ReadPreference::ReplicaFirst,
            r.spec_classifier() == LeadingKeyword,
    {
        RwSplit {
            group,
            primary,
            preference: ReadPreference::ReplicaFirst,
            classifier: LeadingKeyword,
        }
    }
}

impl<K: Classifier> RwSplit<K> {
    /// The endpoints' health.
    pub closed spec fn spec_group(&self) -> GroupView {
        self.group@
    }

    /// The primary's id.
    pub closed spec fn spec_primary(&self) -> Seq<char> {
        self.primary@
    }

    /// The read preference.
    pub closed spec fn spec_preference(&self) -> ReadPreference {
        self.preference
    }

    /// The classifier.
    pub closed spec fn spec_classifier(&self) -> K {
        self.classifier
    }

    /// Where a read or a write goes.
    pub open spec fn routed(&self, ids: Seq<Seq<char>>, is_read: bool, now: Nanos) -> Seq<char> {
        split_route(
            self.spec_group(),
            ids,
            self.spec_primary(),
            self.spec_preference(),
            is_read,
            now,
        )
    }

    /// Set the read preference.
    pub fn with_read_preference(self, preference: ReadPreference) -> (r: Self)
        ensures
            r.spec_group() == self.spec_group(),
            r.spec_primary() == self.spec_primary(),
            r.spec_preference() == preference,
            r.spec_classifier() == self.spec_classifier(),
    {
        RwSplit {
            group: self.group,
            primary: self.primary,
            preference,
            classifier: self.classifier,
        }
    }

    /// Replace the read classifier (`true` means read).
    pub fn with_classifier<F: Fn(&str) -> bool>(self, f: F) -> (r: RwSplit<ByFunction<F>>)
        ensures
            r.spec_group() == self.spec_group(),
            r.spec_primary() == self.spec_primary(),
            r.spec_preference() == self.spec_preference(),
            r.spec_classifier().f == f,
    {
        RwSplit {
            group: self.group,
            primary: self.primary,
            preference: self.preference,
            classifier: ByFunction { f },
        }
    }

    /// The endpoints' health, to report failures and successes to.
    pub fn group(&self) -> (g: &EndpointGroup)
        ensures
            g@ == self.spec_group(),
    {
        &self.group
    }

    /// Record a failure of an endpoint.
    pub fn report_failure(&mut self, id: &str, now: Nanos)
        ensures
            final(self).spec_group() == old(self).spec_group().failed(id@, now),
            final(self).spec_primary() == old(self).spec_primary(),
            final(self).spec_preference() == old(self).spec_preference(),
            final(self).spec_classifier() == old(self).spec_classifier(),
    {
        self.group.report_failure(id, now);
    }

    /// Record a success of an endpoint.
    pub fn report_success(&mut self, id: &str)
        ensures
            final(self).spec_group() == old(self).spec_group().succeeded(id@),
            final(self).spec_primary() == old(self).spec_primary(),
            final(self).spec_preference() == old(self).spec_preference(),
            final(self).spec_classifier() == old(self).spec_classifier(),
    {
        self.group.report_success(id);
    }

    /// Route SQL: reads to the first alive endpoint that is not the primary,
    /// writes to the primary (even when it is dead: writes have nowhere else
    /// to go).
    pub fn route_sql(&self, info: &RoutingInfo<'_>, sql: &str, now: Nanos) -> (r: EndpointId)
        requires
            self.spec_classifier().ready(),
        ensures
            exists|read: bool|
                {
                    &&& #[trigger] self.spec_classifier().may_answer(sql@, read)
                    &&& r@ == self.routed(info.ids(), read, now)
                },
    {
        let read = self.classifier.is_read(sql);
        self.route(info, read, now)
    }

    /// Route by an explicit read/write decision.
    pub fn route(&self, info: &RoutingInfo<'_>, is_read: bool, now: Nanos) -> (r: EndpointId)
        ensures
            r@ == self.routed(info.ids(), is_read, now),
    {
        if !is_read || self.preference == ReadPreference::PrimaryOnly {
            return self.primary.clone();
        }
        let ghost ids = info.ids();
        let endpoints = info.endpoints();
        let mut i: usize = 0;
        while i < endpoints.len()
            invariant
                i <= endpoints.len(),
                endpoints@ == info.spec_endpoints(),
                ids == info.ids(),
                is_read,
                self.preference != ReadPreference::PrimaryOnly,
                first_replica(self.group@, ids.take(i as int), self.primary@, now) is None,
            decreases endpoints.len() - i,
        {
            assert(ids.take(i + 1).drop_last() =~= ids.take(i as int));
            if !text::same_text(endpoints[i].id.as_str(), self.primary.as_str())
                && self.group.is_alive(endpoints[i].id.as_str(), now) {
                proof {
                    lemma_first_replica_extends(self.group@, ids, self.primary@, now, i + 1);
                }
                return endpoints[i].id.clone();
            }
            i += 1;
        }
        assert(ids.take(endpoints.len() as int) =~= ids);
        self.primary.clone()
    }
}

// ---------------------------------------------------------------------------
// failover
// ---------------------------------------------------------------------------

/// The default routing: the first alive endpoint, passive health tracking,
/// and an error policy that always links the session anew.
#[derive(Debug)]
pub struct FailoverRouter {
    group: EndpointGroup,
}

impl View for FailoverRouter {
    type V = GroupView;

    closed spec fn view(&self) -> GroupView {
        self.group@
    }
}

impl FailoverRouter {
    /// Route among these endpoints.
    pub fn new(group: EndpointGroup) -> (r: Self)
        ensures
            r@ == group@,
    {
        FailoverRouter { group }
    }

    /// Route among a route's endpoints.
    pub fn from_endpoints(endpoints: &[EndpointConfig]) -> (r: Self)
        ensures
            r@.fresh(config::endpoint_ids(endpoints@)),
    {
        Self::new(EndpointGroup::from_endpoints(endpoints))
    }

    /// The endpoints' health.
    pub fn group(&self) -> (g: &EndpointGroup)
        ensures
            g@ == self@,
    {
        &self.group
    }

    /// The endpoint for the next attach: the first alive one, or the default
    /// one when all are dead.
    pub fn upstream(&self, info: &RoutingInfo<'_>, now: Nanos) -> (r: EndpointId)
        ensures
            r@ == failover_route(self@, info.ids(), now),
    {
        match self.group.select_first_alive(info, now) {
            Some(id) => id,
            None => info.default_endpoint().to_owned(),
        }
    }

    /// An upstream failure counts against its endpoint, and the session is
    /// linked anew.
    pub fn on_upstream_error(&mut self, error: &UpstreamError, now: Nanos) -> (r: RetryDecision)
        ensures
            final(self)@ == old(self)@.failed(error.spec_endpoint(), now),
            r == RetryDecision::Relink,
    {
        self.group.report_failure(error.endpoint(), now);
        RetryDecision::Relink
    }

    /// A connected endpoint is healthy.
    pub fn on_upstream_connected(&mut self, endpoint: &str)
        ensures
            final(self)@ == old(self)@.succeeded(endpoint@),
    {
        self.group.report_success(endpoint);
    }
}

/// Where failover sends a session: to the first endpoint that is alive, and to
/// the first of all when none is.
pub open spec fn failover_route(group: GroupView, ids: Seq<Seq<char>>, now: Nanos) -> Seq<char> {
    match first_alive(group, ids, now) {
        Some(id) => id,
        None => if ids.len() > 0 {
            ids[0]
        } else {
            Seq::empty()
        },
    }
}

// ---------------------------------------------------------------------------
// laws
// ---------------------------------------------------------------------------

/// Whether a text starts with white space or a comment.
pub open spec fn starts_blank(s: Seq<char>) -> bool {
    ||| s.len() > 0 && text::is_white_space(s[0])
    ||| s.len() > 1 && s[0] == '-' && s[1] == '-'
    ||| s.len() > 1 && s[0] == '/' && s[1] == '*'
}

proof fn lemma_suffix_of_skip(a: Seq<char>, s: Seq<char>, n: int)
    requires
        0 <= n <= s.len(),
        a.is_suffix_of(s.skip(n)),
    ensures
        a.is_suffix_of(s),
{
    assert(a =~= s.subrange(s.len() - a.len(), s.len() as int));
}

proof fn lemma_suffix_transitive(a: Seq<char>, b: Seq<char>, c: Seq<char>)
    requires
        a.is_suffix_of(b),
        b.is_suffix_of(c),
    ensures
        a.is_suffix_of(c),
{
    assert(a =~= c.subrange(c.len() - a.len(), c.len() as int));
}

proof fn lemma_after_is_suffix(s: Seq<char>)
    ensures
        after_line(s).is_suffix_of(s),
        after_block(s).is_suffix_of(s),
    decreases s.len(),
{
    if s.len() > 0 {
        lemma_after_is_suffix(s.skip(1));
        lemma_suffix_of_skip(after_line(s.skip(1)), s, 1);
        lemma_suffix_of_skip(after_block(s.skip(1)), s, 1);
    }
}

/// What is left without the white space and comments in front is the end of
/// the text, starts with neither, and is not stripped any further. A text that
/// starts with neither is left whole.
pub proof fn law_comments_stripped(s: Seq<char>)
    ensures
        without_comments(s).is_suffix_of(s),
        !starts_blank(without_comments(s)),
        without_comments(without_comments(s)) == without_comments(s),
        !starts_blank(s) ==> without_comments(s) == s,
    decreases s.len(),
{
    if s.len() > 0 && text::is_white_space(s[0]) {
        law_comments_stripped(s.skip(1));
        lemma_suffix_of_skip(without_comments(s), s, 1);
    } else if s.len() > 1 && s[0] == '-' && s[1] == '-' {
        let rest = after_line(s.skip(2));
        lemma_after_shorter(s.skip(2));
        lemma_after_is_suffix(s.skip(2));
        law_comments_stripped(rest);
        lemma_suffix_transitive(without_comments(s), rest, s.skip(2));
        lemma_suffix_of_skip(without_comments(s), s, 2);
    } else if s.len() > 1 && s[0] == '/' && s[1] == '*' {
        let rest = after_block(s.skip(2));
        lemma_after_shorter(s.skip(2));
        lemma_after_is_suffix(s.skip(2));
        law_comments_stripped(rest);
        lemma_suffix_transitive(without_comments(s), rest, s.skip(2));
        lemma_suffix_of_skip(without_comments(s), s, 2);
    }
}

proof fn lemma_after_line_of(body: Seq<char>, rest: Seq<char>)
    requires
        !body.contains('\n'),
    ensures
        after_line(body + seq!['\n'] + rest) == rest,
        after_line(body) == Seq::<char>::empty(),
    decreases body.len(),
{
    let whole = body + seq!['\n'] + rest;
    if body.len() == 0 {
        assert(whole.skip(1) =~= rest);
        assert(body =~= Seq::<char>::empty());
    } else {
        assert(body.contains(body[0]));
        assert forall|c: char| body.skip(1).contains(c) implies body.contains(c) by {
            let k = choose|k: int| 0 <= k < body.skip(1).len() && body.skip(1)[k] == c;
            assert(body[k + 1] == c);
        }
        lemma_after_line_of(body.skip(1), rest);
        assert(whole.skip(1) =~= body.skip(1) + seq!['\n'] + rest);
    }
}

/// Whether a text holds the end of a block comment.
pub open spec fn ends_block(s: Seq<char>) -> bool {
    exists|i: int| 0 <= i < s.len() - 1 && #[trigger] s[i] == '*' && s[i + 1] == '/'
}

proof fn lemma_after_block_of(body: Seq<char>, rest: Seq<char>)
    requires
        !ends_block(body),
    ensures
        after_block(body + seq!['*', '/'] + rest) == rest,
        after_block(body) == Seq::<char>::empty(),
    decreases body.len(),
{
    let whole = body + seq!['*', '/'] + rest;
    if body.len() == 0 {
        assert(whole.skip(2) =~= rest);
        assert(body =~= Seq::<char>::empty());
    } else {
        let next = body.skip(1);
        if ends_block(next) {
            let k = choose|k: int| 0 <= k < next.len() - 1 && #[trigger] next[k] == '*' && next[k
                + 1] == '/';
            assert(body[k + 1] == '*' && body[k + 2] == '/');
        }
        lemma_after_block_of(next, rest);
        assert(whole.skip(1) =~= next + seq!['*', '/'] + rest);
        assert(body[0] == '*' && body.len() > 1 ==> body[1] != '/');
        assert(body.len() == 1 ==> whole[1] == '*');
    }
}

/// A comment in front of SQL is cut off up to its end and no further: a line
/// comment up to the end of its line, a block comment up to the first end of a
/// block. One that does not end leaves nothing.
pub proof fn law_comment_cut_off(body: Seq<char>, rest: Seq<char>)
    ensures
        !body.contains('\n') ==> {
            &&& without_comments(seq!['-', '-'] + body + seq!['\n'] + rest) == without_comments(
                rest,
            )
            &&& without_comments(seq!['-', '-'] + body) == Seq::<char>::empty()
        },
        !ends_block(body) ==> {
            &&& without_comments(seq!['/', '*'] + body + seq!['*', '/'] + rest)
                == without_comments(rest)
            &&& without_comments(seq!['/', '*'] + body) == Seq::<char>::empty()
        },
{
    assert(!text::is_white_space('-') && !text::is_white_space('/'));
    assert(without_comments(Seq::<char>::empty()) == Seq::<char>::empty());
    if !body.contains('\n') {
        lemma_after_line_of(body, rest);
        let line = seq!['-', '-'] + body + seq!['\n'] + rest;
        let open = seq!['-', '-'] + body;
        assert(line[0] == '-' && line[1] == '-' && open[0] == '-' && open[1] == '-');
        assert(line.skip(2) =~= body + seq!['\n'] + rest);
        assert(open.skip(2) =~= body);
    }
    if !ends_block(body) {
        lemma_after_block_of(body, rest);
        let block = seq!['/', '*'] + body + seq!['*', '/'] + rest;
        let open = seq!['/', '*'] + body;
        assert(block[0] == '/' && block[1] == '*' && open[0] == '/' && open[1] == '*');
        assert(block.skip(2) =~= body + seq!['*', '/'] + rest);
        assert(open.skip(2) =~= body);
    }
}

/// A healthy endpoint dies exactly when its failures in a row reach the
/// threshold, and its cooldown runs from the last failure.
pub proof fn law_dead_at_threshold(group: GroupView, id: Seq<char>, times: Seq<Nanos>)
    requires
        group.valid(),
        group.health_of(id) == (Health::Alive { failures: 0 }),
    ensures
        group.failed_at(id, times).health_of(id) == (if times.len() < group.failure_threshold {
            Health::Alive { failures: times.len() as u32 }
        } else {
            Health::Dead { since: times.last() }
        }),
        group.failed_at(id, times).failure_threshold == group.failure_threshold,
    decreases times.len(),
{
    if times.len() > 0 {
        law_dead_at_threshold(group, id, times.drop_last());
    }
}

/// A dead endpoint is skipped until the cooldown has passed since its last
/// failure, and counts as alive from then on. A success makes a followed
/// endpoint healthy at once. Other endpoints are not affected by either.
pub proof fn law_revival(group: GroupView, id: Seq<char>, other: Seq<char>, since: Nanos, now: Nanos)
    requires
        group.health.contains_key(id),
        group.health[id] == (Health::Dead { since }),
        other != id,
    ensures
        group.alive(id, now) <==> time::elapsed_at(since, now) >= group.revive_after,
        group.succeeded(id).alive(id, now),
        group.succeeded(id).health[id] == (Health::Alive { failures: 0 }),
        group.failed(id, now).alive(other, now) == group.alive(other, now),
        group.succeeded(id).alive(other, now) == group.alive(other, now),
{
}

/// The first alive endpoint is one of the endpoints, is alive, and comes
/// before every other alive one; there is none only when all are dead.
pub proof fn law_first_alive(group: GroupView, ids: Seq<Seq<char>>, now: Nanos)
    ensures
        match first_alive(group, ids, now) {
            Some(id) => exists|k: int|
                {
                    &&& 0 <= k < ids.len()
                    &&& #[trigger] ids[k] == id
                    &&& group.alive(id, now)
                    &&& forall|j: int| 0 <= j < k ==> !group.alive(#[trigger] ids[j], now)
                },
            None => forall|j: int| 0 <= j < ids.len() ==> !group.alive(#[trigger] ids[j], now),
        },
    decreases ids.len(),
{
    if ids.len() > 0 {
        let init = ids.drop_last();
        law_first_alive(group, init, now);
        match first_alive(group, init, now) {
            Some(id) => {
                let k = choose|k: int|
                    {
                        &&& 0 <= k < init.len()
                        &&& #[trigger] init[k] == id
                        &&& group.alive(id, now)
                        &&& forall|j: int| 0 <= j < k ==> !group.alive(#[trigger] init[j], now)
                    };
                assert(ids[k] == id);
                assert forall|j: int| 0 <= j < k implies !group.alive(#[trigger] ids[j], now) by {
                    assert(init[j] == ids[j]);
                }
            },
            None => {
                assert forall|j: int| 0 <= j < init.len() implies !group.alive(
                    #[trigger] ids[j],
                    now,
                ) by {
                    assert(init[j] == ids[j]);
                }
                let k = ids.len() - 1;
                assert(ids[k] == ids.last());
            },
        }
    }
}

/// Writes always go to the primary, dead or alive. A read goes to an alive
/// endpoint other than the primary, or to the primary when there is none.
pub proof fn law_writes_to_primary(
    group: GroupView,
    ids: Seq<Seq<char>>,
    primary: Seq<char>,
    preference: ReadPreference,
    now: Nanos,
)
    ensures
        split_route(group, ids, primary, preference, false, now) == primary,
        split_route(group, ids, primary, ReadPreference::PrimaryOnly, true, now) == primary,
        ({
            let to = split_route(group, ids, primary, preference, true, now);
            to == primary || (ids.contains(to) && group.alive(to, now))
        }),
{
    lemma_replica_alive(group, ids, primary, now);
}

proof fn lemma_replica_alive(group: GroupView, ids: Seq<Seq<char>>, primary: Seq<char>, now: Nanos)
    ensures
        first_replica(group, ids, primary, now) matches Some(id) ==> ids.contains(id)
            && group.alive(id, now) && id != primary,
    decreases ids.len(),
{
    if ids.len() > 0 {
        let init = ids.drop_last();
        lemma_replica_alive(group, init, primary, now);
        match first_replica(group, init, primary, now) {
            Some(id) => {
                let k = choose|k: int| 0 <= k < init.len() && init[k] == id;
                assert(ids[k] == id);
            },
            None => {
                assert(ids[ids.len() - 1] == ids.last());
            },
        }
    }
}

/// Reads go to the first endpoint, in configuration order, that is not the
/// primary and is alive, whatever the primary's own health; to the primary they
/// go only when no other endpoint is alive.
pub proof fn law_reads_to_first_alive_replica(
    group: GroupView,
    ids: Seq<Seq<char>>,
    primary: Seq<char>,
    now: Nanos,
)
    ensures
        ({
            let to = split_route(group, ids, primary, ReadPreference::ReplicaFirst, true, now);
            &&& (exists|k: int|
                0 <= k < ids.len() && #[trigger] ids[k] != primary && group.alive(ids[k], now))
                ==> exists|k: int|
                {
                    &&& 0 <= k < ids.len()
                    &&& #[trigger] ids[k] == to
                    &&& to != primary
                    &&& group.alive(to, now)
                    &&& forall|j: int|
                        0 <= j < k ==> #[trigger] ids[j] == primary || !group.alive(ids[j], now)
                }
            &&& (forall|k: int|
                0 <= k < ids.len() ==> #[trigger] ids[k] == primary || !group.alive(ids[k], now))
                ==> to == primary
        }),
{
    lemma_first_replica_is_first(group, ids, primary, now);
    match first_replica(group, ids, primary, now) {
        Some(id) => {
            let k = choose|k: int|
                {
                    &&& 0 <= k < ids.len()
                    &&& #[trigger] ids[k] == id
                    &&& id != primary
                    &&& group.alive(id, now)
                    &&& forall|j: int|
                        0 <= j < k ==> #[trigger] ids[j] == primary || !group.alive(ids[j], now)
                };
            assert(ids[k] == id);
        },
        None => {},
    }
}

proof fn lemma_first_replica_is_first(
    group: GroupView,
    ids: Seq<Seq<char>>,
    primary: Seq<char>,
    now: Nanos,
)
    ensures
        match first_replica(group, ids, primary, now) {
            Some(id) => exists|k: int|
                {
                    &&& 0 <= k < ids.len()
                    &&& #[trigger] ids[k] == id
                    &&& id != primary
                    &&& group.alive(id, now)
                    &&& forall|j: int|
                        0 <= j < k ==> #[trigger] ids[j] == primary || !group.alive(ids[j], now)
                },
            None => forall|k: int|
                0 <= k < ids.len() ==> #[trigger] ids[k] == primary || !group.alive(ids[k], now),
        },
    decreases ids.len(),
{
    if ids.len() > 0 {
        let init = ids.drop_last();
        lemma_first_replica_is_first(group, init, primary, now);
        match first_replica(group, init, primary, now) {
            Some(id) => {
                let k = choose|k: int|
                    {
                        &&& 0 <= k < init.len()
                        &&& #[trigger] init[k] == id
                        &&& id != primary
                        &&& group.alive(id, now)
                        &&& forall|j: int|
                            0 <= j < k ==> #[trigger] init[j] == primary || !group.alive(
                                init[j],
                                now,
                            )
                    };
                assert(ids[k] == id);
                assert forall|j: int| 0 <= j < k implies #[trigger] ids[j] == primary
                    || !group.alive(ids[j], now) by {
                    assert(init[j] == ids[j]);
                }
            },
            None => {
                assert forall|j: int| 0 <= j < init.len() implies #[trigger] ids[j] == primary
                    || !group.alive(ids[j], now) by {
                    assert(init[j] == ids[j]);
                }
                assert(ids[ids.len() - 1] == ids.last());
            },
        }
    }
}

/// Health of endpoints: one that is not followed, or has failed less often than
/// the threshold in a row, counts as alive; a dead one only once its cooldown
/// has passed. A failure or a success of one endpoint does not touch another,
/// nor the limits.
pub proof fn law_health(group: GroupView, id: Seq<char>, other: Seq<char>, now: Nanos, later: Nanos)
    requires
        other != id,
    ensures
        !group.health.contains_key(id) ==> group.alive(id, now),
        group.health.contains_key(id) && group.health[id] is Alive ==> group.alive(id, now),
        group.health.contains_key(id) ==> (group.health[id] matches Health::Dead { since } ==> {
            &&& group.alive(id, later) <==> (if later >= since {
                later - since
            } else {
                0
            }) >= group.revive_after
        }),
        ({
            let t = group.failed(id, now);
            &&& t.health.contains_key(id)
            &&& t.health.contains_key(other) <==> group.health.contains_key(other)
            &&& group.health.contains_key(other) ==> t.health[other] == group.health[other]
            &&& t.failure_threshold == group.failure_threshold
            &&& t.revive_after == group.revive_after
            &&& group.health_of(id) is Dead ==> t.health[id] == (Health::Dead { since: now })
        }),
        ({
            let t = group.succeeded(id);
            &&& t.health.contains_key(id) <==> group.health.contains_key(id)
            &&& t.health.contains_key(other) <==> group.health.contains_key(other)
            &&& group.health.contains_key(other) ==> t.health[other] == group.health[other]
            &&& t.failure_threshold == group.failure_threshold
            &&& t.revive_after == group.revive_after
            &&& t.alive(id, later)
            &&& group.health.contains_key(id) ==> t.health[id] == (Health::Alive { failures: 0 })
        }),
{
}

/// A round of the alive endpoints visits those and no others, in configuration
/// order.
pub proof fn law_alive_ids(group: GroupView, ids: Seq<Seq<char>>, id: Seq<char>, now: Nanos)
    ensures
        group.alive_ids(ids, now).contains(id) <==> ids.contains(id) && group.alive(id, now),
        ids.len() > 0 ==> group.alive_ids(ids, now) == (if group.alive(ids.last(), now) {
            group.alive_ids(ids.drop_last(), now).push(ids.last())
        } else {
            group.alive_ids(ids.drop_last(), now)
        }),
{
    let test = |id: Seq<char>| group.alive(id, now);
    reveal(Seq::filter);
    if group.alive_ids(ids, now).contains(id) {
        ids.lemma_filter_contains_rev(test, id);
        let k = choose|k: int| 0 <= k < ids.filter(test).len() && ids.filter(test)[k] == id;
        ids.lemma_filter_pred(test, k);
    }
    if ids.contains(id) && group.alive(id, now) {
        let i = choose|i: int| 0 <= i < ids.len() && ids[i] == id;
        ids.lemma_filter_contains(test, i);
    }
}

/// Whether a word spells one of the words that start a read, in any case.
pub open spec fn starts_a_read(word: Seq<char>) -> bool {
    ||| word.len() == 6 && forall|i: int|
        0 <= i < 6 ==> #[trigger] word[i] == "SELECT"@[i] || word[i] == "select"@[i]
    ||| word.len() == 4 && forall|i: int|
        0 <= i < 4 ==> #[trigger] word[i] == "SHOW"@[i] || word[i] == "show"@[i]
    ||| word.len() == 5 && forall|i: int|
        0 <= i < 5 ==> #[trigger] word[i] == "TABLE"@[i] || word[i] == "table"@[i]
}

proof fn lemma_word_at(word: Seq<char>, rest: Seq<char>)
    requires
        forall|i: int| 0 <= i < word.len() ==> !ends_word(#[trigger] word[i]),
        rest.len() > 0 ==> ends_word(rest[0]),
    ensures
        word_at(word + rest) == word,
    decreases word.len(),
{
    let whole = word + rest;
    if word.len() == 0 {
        assert(whole =~= rest);
        assert(word =~= Seq::<char>::empty());
    } else {
        assert(whole[0] == word[0]);
        assert forall|i: int| 0 <= i < word.skip(1).len() implies !ends_word(
            #[trigger] word.skip(1)[i],
        ) by {
            assert(word.skip(1)[i] == word[i + 1]);
        }
        lemma_word_at(word.skip(1), rest);
        assert(whole.skip(1) =~= word.skip(1) + rest);
        assert(seq![word[0]] + word.skip(1) =~= word);
    }
}

/// SQL is a read exactly when its first word is `SELECT`, `SHOW` or `TABLE` in
/// any case. A word ends at white space, at an opening parenthesis, or with the
/// text.
pub proof fn law_reads_by_first_word(word: Seq<char>, rest: Seq<char>)
    requires
        word.len() > 0,
        forall|i: int|
            0 <= i < word.len() ==> !text::is_white_space(#[trigger] word[i]) && word[i] != '(',
        rest.len() > 0 ==> text::is_white_space(rest[0]) || rest[0] == '(',
        !starts_blank(word),
    ensures
        reads(word + rest) <==> starts_a_read(word),
{
    let whole = word + rest;
    assert(whole[0] == word[0]);
    assert(!starts_blank(whole)) by {
        if word.len() > 1 {
            assert(whole[1] == word[1]);
        } else if rest.len() > 0 {
            assert(whole[1] == rest[0]);
        }
    }
    law_comments_stripped(whole);
    lemma_word_at(word, rest);
    assert(from_word(whole) == whole);
    reveal_strlit("SELECT");
    reveal_strlit("select");
    reveal_strlit("SHOW");
    reveal_strlit("show");
    reveal_strlit("TABLE");
    reveal_strlit("table");
}

/// White space, comments and opening parentheses in front of SQL do not change
/// whether it is a read.
pub proof fn law_reads_behind(sql: Seq<char>)
    ensures
        reads(without_comments(sql)) == reads(sql),
        !starts_blank(sql) ==> reads(seq!['('] + sql) == reads(sql),
        forall|c: char| text::is_white_space(c) ==> #[trigger] reads(seq![c] + sql) == reads(sql),
{
    law_comments_stripped(sql);
    if !starts_blank(sql) {
        let s = seq!['('] + sql;
        assert(s[0] == '(');
        assert(!text::is_white_space('('));
        assert(!starts_blank(s));
        law_comments_stripped(s);
        assert(s.skip(1) =~= sql);
        assert(from_word(s) == from_word(sql));
    }
    assert forall|c: char| text::is_white_space(c) implies #[trigger] reads(seq![c] + sql) == reads(
        sql,
    ) by {
        let s = seq![c] + sql;
        assert(s[0] == c);
        assert(s.skip(1) =~= sql);
    }
}

/// Endpoints that a group starts with are all alive; one failure leaves an
/// endpoint alive, a second one in a row does not, and half a minute later it
/// is tried again.
pub proof fn law_fresh_group(
    group: GroupView,
    ids: Seq<Seq<char>>,
    id: Seq<char>,
    now: Nanos,
    later: Nanos,
)
    requires
        group.fresh(ids),
        now <= later,
    ensures
        group.alive(id, now),
        group.health.contains_key(id) <==> ids.contains(id),
        group.failed(id, now).alive(id, later),
        group.failed(id, now).failed(id, now).alive(id, later) <==> later - now >= 30_000_000_000,
        group.valid(),
{
}

proof fn lemma_first_alive_at(group: GroupView, ids: Seq<Seq<char>>, now: Nanos, k: int)
    requires
        0 <= k < ids.len(),
        group.alive(ids[k], now),
        forall|i: int| 0 <= i < k ==> !group.alive(#[trigger] ids[i], now),
    ensures
        first_alive(group, ids, now) == Some(ids[k]),
    decreases ids.len(),
{
    let init = ids.drop_last();
    if k < init.len() {
        assert(init[k] == ids[k]);
        assert forall|i: int| 0 <= i < k implies !group.alive(#[trigger] init[i], now) by {
            assert(init[i] == ids[i]);
        }
        lemma_first_alive_at(group, init, now, k);
    } else {
        lemma_none_alive(group, init, now);
    }
}

proof fn lemma_none_alive(group: GroupView, ids: Seq<Seq<char>>, now: Nanos)
    requires
        forall|i: int| 0 <= i < ids.len() ==> !group.alive(#[trigger] ids[i], now),
    ensures
        first_alive(group, ids, now) is None,
    decreases ids.len(),
{
    if ids.len() > 0 {
        assert(!group.alive(ids[ids.len() - 1], now));
        assert forall|i: int| 0 <= i < ids.drop_last().len() implies !group.alive(
            #[trigger] ids.drop_last()[i],
            now,
        ) by {
            assert(ids.drop_last()[i] == ids[i]);
        }
        lemma_none_alive(group, ids.drop_last(), now);
    }
}

/// Failover sends a session to the first endpoint, in configuration order, that
/// is alive, so past every dead one before it; with all of them dead the first
/// is tried nevertheless.
pub proof fn law_failover(group: GroupView, ids: Seq<Seq<char>>, now: Nanos, k: int)
    ensures
        0 <= k < ids.len() && group.alive(ids[k], now) && (forall|i: int|
            0 <= i < k ==> !group.alive(#[trigger] ids[i], now)) ==> failover_route(group, ids, now)
            == ids[k],
        ids.len() > 0 && (forall|i: int|
            0 <= i < ids.len() ==> !group.alive(#[trigger] ids[i], now)) ==> failover_route(
            group,
            ids,
            now,
        ) == ids[0],
{
    if 0 <= k < ids.len() && group.alive(ids[k], now) && (forall|i: int|
        0 <= i < k ==> !group.alive(#[trigger] ids[i], now)) {
        lemma_first_alive_at(group, ids, now, k);
    }
    if ids.len() > 0 && (forall|i: int|
        0 <= i < ids.len() ==> !group.alive(#[trigger] ids[i], now)) {
        lemma_none_alive(group, ids, now);
    }
}

/// What one endpoint does says nothing of another: failures and successes of
/// one leave the health of all others alone, and the limits too.
pub proof fn law_health_of_others(
    group: GroupView,
    id: Seq<char>,
    other: Seq<char>,
    at: Nanos,
    now: Nanos,
)
    requires
        other != id,
    ensures
        group.failed(id, at).alive(other, now) == group.alive(other, now),
        group.succeeded(id).alive(other, now) == group.alive(other, now),
        group.succeeded(id).alive(id, now),
        group.failed(id, at).failure_threshold == group.failure_threshold,
        group.failed(id, at).revive_after == group.revive_after,
        group.succeeded(id).failure_threshold == group.failure_threshold,
        group.succeeded(id).revive_after == group.revive_after,
{
}

proof fn lemma_first_replica_at(
    group: GroupView,
    ids: Seq<Seq<char>>,
    primary: Seq<char>,
    now: Nanos,
    k: int,
)
    requires
        0 <= k < ids.len(),
        ids[k] != primary,
        group.alive(ids[k], now),
        forall|i: int|
            0 <= i < k ==> #[trigger] ids[i] == primary || !group.alive(ids[i], now),
    ensures
        first_replica(group, ids, primary, now) == Some(ids[k]),
    decreases ids.len(),
{
    let init = ids.drop_last();
    if k < init.len() {
        assert(init[k] == ids[k]);
        assert forall|i: int| 0 <= i < k implies #[trigger] init[i] == primary || !group.alive(
            init[i],
            now,
        ) by {
            assert(init[i] == ids[i]);
        }
        lemma_first_replica_at(group, init, primary, now, k);
    } else {
        assert forall|i: int| 0 <= i < init.len() implies #[trigger] init[i] == primary
            || !group.alive(init[i], now) by {
            assert(init[i] == ids[i]);
        }
        lemma_no_replica(group, init, primary, now);
    }
}

proof fn lemma_no_replica(group: GroupView, ids: Seq<Seq<char>>, primary: Seq<char>, now: Nanos)
    requires
        forall|i: int|
            0 <= i < ids.len() ==> #[trigger] ids[i] == primary || !group.alive(ids[i], now),
    ensures
        first_replica(group, ids, primary, now) is None,
    decreases ids.len(),
{
    if ids.len() > 0 {
        let init = ids.drop_last();
        assert(ids[ids.len() - 1] == primary || !group.alive(ids[ids.len() - 1], now));
        assert forall|i: int| 0 <= i < init.len() implies #[trigger] init[i] == primary
            || !group.alive(init[i], now) by {
            assert(init[i] == ids[i]);
        }
        lemma_no_replica(group, init, primary, now);
    }
}

/// What a read/write split does with the health that it has seen: writes go to
/// the primary, dead or alive. With replicas first, a read goes to the first
/// endpoint that is alive and not the primary, however the primary is; without
/// one, or with the primary only, it goes to the primary.
pub proof fn law_split_routes<K: Classifier>(
    r: RwSplit<K>,
    ids: Seq<Seq<char>>,
    now: Nanos,
    k: int,
)
    ensures
        r.routed(ids, false, now) == r.spec_primary(),
        r.spec_preference() == ReadPreference::PrimaryOnly ==> r.routed(ids, true, now)
            == r.spec_primary(),
        r.spec_preference() == ReadPreference::ReplicaFirst && 0 <= k < ids.len() && ids[k]
            != r.spec_primary() && r.spec_group().alive(ids[k], now) && (forall|i: int|
            0 <= i < k ==> #[trigger] ids[i] == r.spec_primary() || !r.spec_group().alive(
                ids[i],
                now,
            )) ==> r.routed(ids, true, now) == ids[k],
        (forall|i: int|
            0 <= i < ids.len() ==> #[trigger] ids[i] == r.spec_primary() || !r.spec_group().alive(
                ids[i],
                now,
            )) ==> r.routed(ids, true, now) == r.spec_primary(),
{
    let group = r.spec_group();
    let primary = r.spec_primary();
    if 0 <= k < ids.len() && ids[k] != primary && group.alive(ids[k], now) && (forall|i: int|
        0 <= i < k ==> #[trigger] ids[i] == primary || !group.alive(ids[i], now)) {
        lemma_first_replica_at(group, ids, primary, now, k);
    }
    if forall|i: int|
        0 <= i < ids.len() ==> #[trigger] ids[i] == primary || !group.alive(ids[i], now) {
        lemma_no_replica(group, ids, primary, now);
    }
}

/// The default classifier answers, of SQL that starts with a word, that it is a
/// read exactly when the word is `SELECT`, `SHOW` or `TABLE` in any case.
pub proof fn law_default_classifier(word: Seq<char>, rest: Seq<char>, read: bool)
    requires
        word.len() > 0,
        forall|i: int|
            0 <= i < word.len() ==> !text::is_white_space(#[trigger] word[i]) && word[i] != '(',
        rest.len() > 0 ==> text::is_white_space(rest[0]) || rest[0] == '(',
        !starts_blank(word),
    ensures
        LeadingKeyword.may_answer(word + rest, read) <==> read == starts_a_read(word),
        LeadingKeyword.ready(),
{
    law_reads_by_first_word(word, rest);
}

/// The endpoints that routing picks among are those of the route, by their ids
/// and in configuration order; the first is the default.
pub proof fn law_routing_choices(info: RoutingInfo<'_>, i: int)
    ensures
        info.ids().len() == info.endpoints@.len(),
        0 <= i < info.endpoints@.len() ==> info.ids()[i] == info.endpoints@[i].id@,
        info.endpoints@.len() > 0 ==> info.spec_default() == info.endpoints@[0].id@,
        info.endpoints@.len() == 0 ==> info.spec_default().len() == 0,
{
}

} // verus!
