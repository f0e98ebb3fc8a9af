//! A map keyed by text.
//!
//! Sessions carry small maps (prepared statements, parameter overrides,
//! endpoint health). They are kept as a list of pairs in which no key occurs
//! twice; the contracts speak of the mathematical map that the list stands
//! for.

use vstd::prelude::*;
use crate::text::same_text;

verus! {

/// A map from text to `V`.
#[derive(Debug)]
pub struct TextMap<V> {
    entries: Vec<(String, V)>,
}

/// The map that a list of pairs stands for.
closed spec fn pairs_map<V>(s: Seq<(String, V)>) -> Map<Seq<char>, V> {
    Map::new(
        |k: Seq<char>| exists|i: int| 0 <= i < s.len() && #[trigger] s[i].0@ == k,
        |k: Seq<char>| s[choose|i: int| 0 <= i < s.len() && #[trigger] s[i].0@ == k].1,
    )
}

/// Whether no key occurs twice.
closed spec fn distinct<V>(s: Seq<(String, V)>) -> bool {
    forall|i: int, j: int|
        0 <= i < s.len() && 0 <= j < s.len() && i != j ==> #[trigger] s[i].0@ != #[trigger] s[j].0@
}

proof fn lemma_pairs_map_entry<V>(s: Seq<(String, V)>, i: int)
    requires
        distinct(s),
        0 <= i < s.len(),
    ensures
        pairs_map(s).contains_key(s[i].0@),
        pairs_map(s)[s[i].0@] == s[i].1,
{
    let k = s[i].0@;
    let c = choose|j: int| 0 <= j < s.len() && #[trigger] s[j].0@ == k;
    assert(s[i].0@ == k);
    assert(c == i);
}

impl<V> View for TextMap<V> {
    type V = Map<Seq<char>, V>;

    closed spec fn view(&self) -> Map<Seq<char>, V> {
        pairs_map(self.entries@)
    }
}

impl<V> TextMap<V> {
    #[verifier::type_invariant]
    spec fn inv(&self) -> bool {
        distinct(self.entries@)
    }

    /// The keys, in the order in which an index walks them.
    pub closed spec fn keys(&self) -> Seq<Seq<char>> {
        self.entries@.map_values(|e: (String, V)| e.0@)
    }

    /// An empty map.
    pub fn new() -> (m: Self)
        ensures
            m@ == Map::<Seq<char>, V>::empty(),
            m.keys() == Seq::<Seq<char>>::empty(),
    {
        let m = TextMap { entries: Vec::new() };
        assert(m@ =~= Map::<Seq<char>, V>::empty());
        assert(m.keys() =~= Seq::<Seq<char>>::empty());
        m
    }

    /// How many keys there are. Every key is walked exactly once.
    pub fn len(&self) -> (n: usize)
        ensures
            n == self.keys().len(),
            self.keys().no_duplicates(),
            forall|k: Seq<char>| self@.contains_key(k) <==> #[trigger] self.keys().contains(k),
            n == 0 <==> self@ == Map::<Seq<char>, V>::empty(),
    {
        proof {
            use_type_invariant(self);
            let s = self.entries@;
            let ks = self.keys();
            assert forall|i: int, j: int| 0 <= i < ks.len() && 0 <= j < ks.len() && i != j implies ks[i]
                != ks[j] by {
                assert(s[i].0@ != s[j].0@);
            }
            assert forall|k: Seq<char>| self@.contains_key(k) <==> #[trigger] ks.contains(k) by {
                if ks.contains(k) {
                    let i = choose|i: int| 0 <= i < ks.len() && ks[i] == k;
                    assert(s[i].0@ == k);
                }
                if self@.contains_key(k) {
                    let i = choose|i: int| 0 <= i < s.len() && #[trigger] s[i].0@ == k;
                    assert(ks[i] == k);
                }
            }
            if s.len() == 0 {
                assert(self@ =~= Map::<Seq<char>, V>::empty());
            } else {
                assert(ks.contains(ks[0]));
                assert(self@.contains_key(ks[0]));
            }
        }
        self.entries.len()
    }

    /// The key at a position.
    pub fn key_at(&self, i: usize) -> (k: &String)
        requires
            i < self.keys().len(),
        ensures
            k@ == self.keys()[i as int],
            self@.contains_key(k@),
    {
        proof {
            use_type_invariant(self);
            lemma_pairs_map_entry(self.entries@, i as int);
        }
        &self.entries[i].0
    }

    /// The value at a position.
    pub fn value_at(&self, i: usize) -> (v: &V)
        requires
            i < self.keys().len(),
        ensures
            self@.contains_key(self.keys()[i as int]),
            *v == self@[self.keys()[i as int]],
    {
        proof {
            use_type_invariant(self);
            lemma_pairs_map_entry(self.entries@, i as int);
        }
        &self.entries[i].1
    }

    /// The position of `key`, if it is there.
    fn find(&self, key: &str) -> (r: Option<usize>)
        ensures
            r matches Some(i) ==> i < self.entries.len() && self.entries@[i as int].0@ == key@,
            r is None ==> forall|i: int|
                0 <= i < self.entries.len() ==> #[trigger] self.entries@[i].0@ != key@,
    {
        let mut i: usize = 0;
        while i < self.entries.len()
            invariant
                i <= self.entries.len(),
                forall|j: int| 0 <= j < i ==> #[trigger] self.entries@[j].0@ != key@,
            decreases self.entries.len() - i,
        {
            if same_text(self.entries[i].0.as_str(), key) {
                return Some(i);
            }
            i += 1;
        }
        None
    }

    /// The value of `key`, if it has one.
    pub fn get(&self, key: &str) -> (r: Option<&V>)
        ensures
            match r {
                Some(v) => self@.contains_key(key@) && *v == self@[key@],
                None => !self@.contains_key(key@),
            },
    {
        match self.find(key) {
            Some(i) => {
                proof {
                    use_type_invariant(self);
                    lemma_pairs_map_entry(self.entries@, i as int);
                }
                Some(&self.entries[i].1)
            },
            None => None,
        }
    }

    /// Give `key` the value `value`, in place of any value it had.
    pub fn insert(&mut self, key: String, value: V)
        ensures
            final(self)@ == old(self)@.insert(key@, value),
    {
        proof {
            use_type_invariant(&*self);
        }
        let ghost before = self.entries@;
        let found = self.find(key.as_str());
        let ghost k = key@;
        let mut entries: Vec<(String, V)> = Vec::new();
        std::mem::swap(&mut entries, &mut self.entries);
        match found {
            Some(i) => {
                entries.set(i, (key, value));
                proof {
                    let after = entries@;
                    assert(before[i as int].0@ == k);
                    assert forall|a: int, b: int|
                        0 <= a < after.len() && 0 <= b < after.len() && a != b implies #[trigger] after[a].0@
                        != #[trigger] after[b].0@ by {
                        assert(before[a].0@ != before[b].0@);
                    }
                    assert(pairs_map(after) =~= pairs_map(before).insert(k, value)) by {
                        Self::lemma_same_keys(before, after, i as int, k, value);
                    }
                }
            },
            None => {
                entries.push((key, value));
                proof {
                    let after = entries@;
                    assert forall|a: int, b: int|
                        0 <= a < after.len() && 0 <= b < after.len() && a != b implies #[trigger] after[a].0@
                        != #[trigger] after[b].0@ by {
                        if a < before.len() && b < before.len() {
                            assert(before[a].0@ != before[b].0@);
                        } else if a < before.len() {
                            assert(before[a].0@ != k);
                        } else {
                            assert(before[b].0@ != k);
                        }
                    }
                    assert(pairs_map(after) =~= pairs_map(before).insert(k, value)) by {
                        Self::lemma_pushed(before, after, k, value);
                    }
                }
            },
        }
        self.entries = entries;
    }

    proof fn lemma_same_keys(
        before: Seq<(String, V)>,
        after: Seq<(String, V)>,
        i: int,
        k: Seq<char>,
        value: V,
    )
        requires
            distinct(before),
            distinct(after),
            0 <= i < before.len(),
            after.len() == before.len(),
            before[i].0@ == k,
            after[i].0@ == k,
            after[i].1 == value,
            forall|j: int| 0 <= j < before.len() && j != i ==> after[j] == before[j],
        ensures
            pairs_map(after) =~= pairs_map(before).insert(k, value),
    {
        let x = pairs_map(after);
        let y = pairs_map(before).insert(k, value);
        assert forall|q: Seq<char>| x.contains_key(q) <==> y.contains_key(q) by {
            if x.contains_key(q) {
                let j = choose|j: int| 0 <= j < after.len() && #[trigger] after[j].0@ == q;
                assert(before[j].0@ == q);
            }
            if y.contains_key(q) && q != k {
                let j = choose|j: int| 0 <= j < before.len() && #[trigger] before[j].0@ == q;
                assert(after[j].0@ == q);
            }
            if q == k {
                assert(after[i].0@ == q);
            }
        }
        assert forall|q: Seq<char>| x.contains_key(q) implies x[q] == y[q] by {
            let j = choose|j: int| 0 <= j < after.len() && #[trigger] after[j].0@ == q;
            lemma_pairs_map_entry(after, j);
            lemma_pairs_map_entry(before, j);
            if j != i {
                assert(before[j].0@ != before[i].0@);
            }
        }
    }

    proof fn lemma_pushed(
        before: Seq<(String, V)>,
        after: Seq<(String, V)>,
        k: Seq<char>,
        value: V,
    )
        requires
            distinct(before),
            distinct(after),
            after.len() == before.len() + 1,
            after.last().0@ == k,
            after.last().1 == value,
            forall|j: int| 0 <= j < before.len() ==> after[j] == before[j],
        ensures
            pairs_map(after) =~= pairs_map(before).insert(k, value),
    {
        let x = pairs_map(after);
        let y = pairs_map(before).insert(k, value);
        assert forall|q: Seq<char>| x.contains_key(q) <==> y.contains_key(q) by {
            if x.contains_key(q) && q != k {
                let j = choose|j: int| 0 <= j < after.len() && #[trigger] after[j].0@ == q;
                assert(before[j].0@ == q);
            }
            if y.contains_key(q) && q != k {
                let j = choose|j: int| 0 <= j < before.len() && #[trigger] before[j].0@ == q;
                assert(after[j].0@ == q);
            }
            if q == k {
                assert(after[after.len() - 1].0@ == q);
            }
        }
        assert forall|q: Seq<char>| x.contains_key(q) implies x[q] == y[q] by {
            let j = choose|j: int| 0 <= j < after.len() && #[trigger] after[j].0@ == q;
            lemma_pairs_map_entry(after, j);
            if j < before.len() {
                lemma_pairs_map_entry(before, j);
                assert(after[j].0@ != after[after.len() - 1].0@);
            }
        }
    }

    /// Take `key` and its value out.
    pub fn remove(&mut self, key: &str)
        ensures
            final(self)@ == old(self)@.remove(key@),
    {
        proof {
            use_type_invariant(&*self);
        }
        let ghost before = self.entries@;
        let found = self.find(key);
        match found {
            Some(i) => {
                let mut entries: Vec<(String, V)> = Vec::new();
                std::mem::swap(&mut entries, &mut self.entries);
                let _ = entries.remove(i);
                proof {
                    let after = entries@;
                    let at = |j: int| if j < i { j } else { j + 1 };
                    assert forall|j: int| 0 <= j < after.len() implies #[trigger] after[j] == before[at(
                        j,
                    )] by {}
                    assert forall|a: int, b: int|
                        0 <= a < after.len() && 0 <= b < after.len() && a != b implies #[trigger] after[a].0@
                        != #[trigger] after[b].0@ by {
                        assert(before[at(a)].0@ != before[at(b)].0@);
                    }
                    let x = pairs_map(after);
                    let y = pairs_map(before).remove(key@);
                    assert forall|q: Seq<char>| x.contains_key(q) <==> y.contains_key(q) by {
                        if x.contains_key(q) {
                            let j = choose|j: int| 0 <= j < after.len() && #[trigger] after[j].0@ == q;
                            assert(before[at(j)].0@ == q);
                            assert(before[at(j)].0@ != before[i as int].0@);
                        }
                        if y.contains_key(q) {
                            let j = choose|j: int| 0 <= j < before.len() && #[trigger] before[j].0@ == q;
                            let t = if j < i { j } else { j - 1 };
                            assert(after[t].0@ == q);
                        }
                    }
                    assert forall|q: Seq<char>| x.contains_key(q) implies x[q] == y[q] by {
                        let j = choose|j: int| 0 <= j < after.len() && #[trigger] after[j].0@ == q;
                        lemma_pairs_map_entry(after, j);
                        lemma_pairs_map_entry(before, at(j));
                    }
                    assert(x =~= y);
                }
                self.entries = entries;
            },
            None => {
                assert(!self@.contains_key(key@));
                assert(self@ =~= old(self)@.remove(key@));
            },
        }
    }
}

} // verus!
