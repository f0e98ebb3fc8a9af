//! Cancel request routing.
//!
//! PostgreSQL cancels a running query by opening a *new* connection to the
//! server and sending a `CancelRequest` carrying the pair of process id and
//! secret key from the original connection's `BackendKeyData`.
//!
//! Clients are given *virtual* pairs, which map back to the session that owns
//! them. When a cancel request arrives its session is signalled, and issues
//! the cancel on its upstream connection with the real keys.

use vstd::prelude::*;

verus! {

/// A live session: its virtual keys, and how it is signalled.
struct Entry<S> {
    pid: i32,
    secret: Vec<u8>,
    session: S,
}

/// The live sessions by their virtual keys. `S` is whatever signals a
/// session.
pub struct CancelRouter<S> {
    entries: Vec<Entry<S>>,
}

/// The session that owns the keys.
closed spec fn owner<S>(entries: Seq<Entry<S>>, pid: i32, secret: Seq<u8>) -> Option<S>
    decreases entries.len(),
{
    if entries.len() == 0 {
        None
    } else if entries.last().pid == pid && entries.last().secret@ == secret {
        Some(entries.last().session)
    } else {
        owner(entries.drop_last(), pid, secret)
    }
}

/// Whether no keys occur twice.
closed spec fn distinct<S>(entries: Seq<Entry<S>>) -> bool {
    forall|i: int, j: int|
        #![trigger entries[i], entries[j]]
        0 <= i < j < entries.len() ==> entries[i].pid != entries[j].pid || entries[i].secret@
            != entries[j].secret@
}

proof fn lemma_owner_at<S>(entries: Seq<Entry<S>>, i: int)
    requires
        distinct(entries),
        0 <= i < entries.len(),
    ensures
        owner(entries, entries[i].pid, entries[i].secret@) == Some(entries[i].session),
    decreases entries.len(),
{
    if i < entries.len() - 1 {
        let init = entries.drop_last();
        assert(init[i] == entries[i]);
        assert(entries[i].pid != entries[entries.len() - 1].pid || entries[i].secret@
            != entries[entries.len() - 1].secret@);
        assert(distinct(init)) by {
            assert forall|a: int, b: int|
                #![trigger init[a], init[b]]
                0 <= a < b < init.len() implies init[a].pid != init[b].pid || init[a].secret@
                != init[b].secret@ by {
                assert(entries[a] == init[a] && entries[b] == init[b]);
            }
        }
        lemma_owner_at(init, i);
    }
}

proof fn lemma_no_owner<S>(entries: Seq<Entry<S>>, pid: i32, secret: Seq<u8>)
    requires
        forall|i: int|
            0 <= i < entries.len() ==> (#[trigger] entries[i]).pid != pid || entries[i].secret@
                != secret,
    ensures
        owner(entries, pid, secret) is None,
    decreases entries.len(),
{
    if entries.len() > 0 {
        let init = entries.drop_last();
        assert forall|i: int| 0 <= i < init.len() implies (#[trigger] init[i]).pid != pid
            || init[i].secret@ != secret by {
            assert(entries[i] == init[i]);
        }
        lemma_no_owner(init, pid, secret);
    }
}

proof fn lemma_owner_removed<S>(entries: Seq<Entry<S>>, i: int, pid: i32, secret: Seq<u8>)
    requires
        0 <= i < entries.len(),
        entries[i].pid != pid || entries[i].secret@ != secret,
    ensures
        owner(entries.remove(i), pid, secret) == owner(entries, pid, secret),
    decreases entries.len(),
{
    if i == entries.len() - 1 {
        assert(entries.remove(i) =~= entries.drop_last());
    } else {
        lemma_owner_removed(entries.drop_last(), i, pid, secret);
        assert(entries.remove(i).drop_last() =~= entries.drop_last().remove(i));
        assert(entries.remove(i).last() == entries.last());
    }
}

/// Whether two byte strings are the same.
fn same_bytes(a: &[u8], b: &[u8]) -> (r: bool)
    ensures
        r == (a@ == b@),
{
    if a.len() != b.len() {
        return false;
    }
    let mut i: usize = 0;
    while i < a.len()
        invariant
            i <= a.len(),
            a.len() == b.len(),
            forall|j: int| 0 <= j < i ==> a@[j] == b@[j],
        decreases a.len() - i,
    {
        if a[i] != b[i] {
            return false;
        }
        i += 1;
    }
    assert(a@ =~= b@);
    true
}

impl<S> CancelRouter<S> {
    #[verifier::type_invariant]
    spec fn inv(&self) -> bool {
        distinct(self.entries@)
    }

    /// The session that owns the keys.
    pub closed spec fn session(&self, pid: i32, secret: Seq<u8>) -> Option<S> {
        owner(self.entries@, pid, secret)
    }

    /// No sessions.
    pub fn new() -> (r: Self)
        ensures
            forall|pid: i32, secret: Seq<u8>| (#[trigger] r.session(pid, secret)) is None,
    {
        CancelRouter { entries: Vec::new() }
    }

    fn position(&self, pid: i32, secret: &[u8]) -> (r: Option<usize>)
        ensures
            match r {
                Some(i) => i < self.entries@.len() && self.entries@[i as int].pid == pid
                    && self.entries@[i as int].secret@ == secret@,
                None => forall|i: int|
                    0 <= i < self.entries@.len() ==> (#[trigger] self.entries@[i]).pid != pid
                        || self.entries@[i].secret@ != secret@,
            },
    {
        let mut i: usize = 0;
        while i < self.entries.len()
            invariant
                i <= self.entries.len(),
                forall|j: int|
                    0 <= j < i ==> (#[trigger] self.entries@[j]).pid != pid || self.entries@[j].secret@
                        != secret@,
            decreases self.entries.len() - i,
        {
            if self.entries[i].pid == pid && same_bytes(self.entries[i].secret.as_slice(), secret) {
                return Some(i);
            }
            i += 1;
        }
        None
    }

    /// The session that owns the keys, to be signalled by a cancel request;
    /// `None` when there is none. The connection that brought the request
    /// gets no reply either way.
    pub fn cancel(&self, pid: i32, secret: &[u8]) -> (r: Option<&S>)
        ensures
            match r {
                Some(s) => self.session(pid, secret@) == Some(*s),
                None => self.session(pid, secret@) is None,
            },
    {
        proof {
            use_type_invariant(self);
        }
        match self.position(pid, secret) {
            Some(i) => {
                proof {
                    lemma_owner_at(self.entries@, i as int);
                }
                Some(&self.entries[i].session)
            },
            None => {
                proof {
                    lemma_no_owner(self.entries@, pid, secret@);
                }
                None
            },
        }
    }

    /// Remove a session, when it ends.
    pub fn unregister(&mut self, pid: i32, secret: &[u8])
        ensures
            final(self).session(pid, secret@) is None,
            forall|p: i32, k: Seq<u8>|
                p != pid || k != secret@ ==> #[trigger] final(self).session(p, k) == old(
                    self,
                ).session(p, k),
    {
        proof {
            use_type_invariant(&*self);
        }
        let ghost before = self.entries@;
        match self.position(pid, secret) {
            Some(i) => {
                let mut entries: Vec<Entry<S>> = Vec::new();
                std::mem::swap(&mut entries, &mut self.entries);
                let _ = entries.remove(i);
                proof {
                    let after = entries@;
                    let at = |j: int| if j < i { j } else { j + 1 };
                    assert forall|j: int| 0 <= j < after.len() implies #[trigger] after[j]
                        == before[at(j)] by {}
                    assert forall|a: int, b: int|
                        #![trigger after[a], after[b]]
                        0 <= a < b < after.len() implies after[a].pid != after[b].pid
                        || after[a].secret@ != after[b].secret@ by {
                        assert(before[at(a)].pid != before[at(b)].pid || before[at(a)].secret@
                            != before[at(b)].secret@);
                    }
                    assert forall|j: int| 0 <= j < after.len() implies (#[trigger] after[j]).pid
                        != pid || after[j].secret@ != secret@ by {
                        let lo = if at(j) < i { at(j) } else { i as int };
                        let hi = if at(j) < i { i as int } else { at(j) };
                        assert(before[lo].pid != before[hi].pid || before[lo].secret@
                            != before[hi].secret@);
                    }
                    lemma_no_owner(after, pid, secret@);
                    assert forall|p: i32, k: Seq<u8>| p != pid || k != secret@ implies owner(
                        after,
                        p,
                        k,
                    ) == owner(before, p, k) by {
                        lemma_owner_removed(before, i as int, p, k);
                    }
                }
                self.entries = entries;
            },
            None => {
                proof {
                    lemma_no_owner(before, pid, secret@);
                }
            },
        }
    }

    /// Register a session under its virtual keys.
    pub fn register(&mut self, pid: i32, secret: Vec<u8>, session: S)
        ensures
            final(self).session(pid, secret@) == Some(session),
            forall|p: i32, k: Seq<u8>|
                p != pid || k != secret@ ==> #[trigger] final(self).session(p, k) == old(
                    self,
                ).session(p, k),
    {
        self.unregister(pid, secret.as_slice());
        proof {
            use_type_invariant(&*self);
        }
        let ghost middle = *self;
        let ghost between = self.entries@;
        let mut entries: Vec<Entry<S>> = Vec::new();
        std::mem::swap(&mut entries, &mut self.entries);
        entries.push(Entry { pid, secret, session });
        proof {
            let after = entries@;
            assert(after.drop_last() =~= between);
            assert forall|a: int, b: int|
                #![trigger after[a], after[b]]
                0 <= a < b < after.len() implies after[a].pid != after[b].pid || after[a].secret@
                != after[b].secret@ by {
                if b < between.len() {
                    assert(between[a].pid != between[b].pid || between[a].secret@
                        != between[b].secret@);
                } else if after[a].pid == pid && after[a].secret@ == secret@ {
                    lemma_owner_at(between, a);
                }
            }
            assert forall|p: i32, k: Seq<u8>| p != pid || k != secret@ implies owner(after, p, k)
                == old(self).session(p, k) by {
                assert(owner(after, p, k) == owner(between, p, k));
                assert(middle.session(p, k) == old(self).session(p, k));
            }
        }
        self.entries = entries;
    }
}

} // verus!
