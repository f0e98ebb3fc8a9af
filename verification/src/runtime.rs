//! The registry of live sessions, for the admin console and metrics.

use vstd::prelude::*;

use crate::time::Nanos;

verus! {

/// What is known of a live session.
#[derive(Debug)]
pub struct SessionInfo {
    /// Virtual session id (also the cancel pid).
    pub pid: i32,
    /// The client's address, as text.
    pub addr: String,
    pub user: String,
    pub database: String,
    /// Admin-console session (never leases an upstream).
    pub is_admin: bool,
    /// Whether the session currently holds an upstream connection.
    pub attached: bool,
    pub started: Nanos,
}

/// The view of a live session.
#[verifier::ext_equal]
pub struct SessionView {
    pub pid: i32,
    pub addr: Seq<char>,
    pub user: Seq<char>,
    pub database: Seq<char>,
    pub is_admin: bool,
    pub attached: bool,
    pub started: Nanos,
}

impl View for SessionInfo {
    type V = SessionView;

    open spec fn view(&self) -> SessionView {
        SessionView {
            pid: self.pid,
            addr: self.addr@,
            user: self.user@,
            database: self.database@,
            is_admin: self.is_admin,
            attached: self.attached,
            started: self.started,
        }
    }
}

/// The views of a list of sessions.
pub open spec fn session_views(s: Seq<SessionInfo>) -> Seq<SessionView> {
    s.map_values(|i: SessionInfo| i@)
}

/// The live sessions, and how many there were in all.
pub struct RuntimeState {
    sessions: Vec<SessionInfo>,
    sessions_total: u64,
}

/// The view of the registry.
#[verifier::ext_equal]
pub struct RuntimeView {
    pub sessions: Seq<SessionView>,
    pub total: u64,
}

impl View for RuntimeState {
    type V = RuntimeView;

    closed spec fn view(&self) -> RuntimeView {
        RuntimeView { sessions: session_views(self.sessions@), total: self.sessions_total }
    }
}

/// The sessions with another id, in order.
pub open spec fn without(sessions: Seq<SessionView>, pid: i32) -> Seq<SessionView> {
    sessions.filter(|s: SessionView| s.pid != pid)
}

/// The sessions with those of this id marked.
pub open spec fn marked(sessions: Seq<SessionView>, pid: i32, attached: bool) -> Seq<SessionView> {
    sessions.map_values(
        |s: SessionView|
            if s.pid == pid {
                SessionView { attached, ..s }
            } else {
                s
            },
    )
}

impl RuntimeState {
    /// No sessions.
    pub fn new() -> (r: Self)
        ensures
            r@ == (RuntimeView { sessions: Seq::empty(), total: 0 }),
    {
        let r = RuntimeState { sessions: Vec::new(), sessions_total: 0 };
        assert(r@.sessions =~= Seq::<SessionView>::empty());
        r
    }

    /// Register a session. The total wraps around.
    pub fn register(&mut self, info: SessionInfo)
        ensures
            final(self)@ == old(self)@.registered(info@),
    {
        let ghost before = self.sessions@;
        self.sessions_total = self.sessions_total.wrapping_add(1);
        self.sessions.push(info);
        assert(session_views(self.sessions@) =~= session_views(before).push(info@));
    }

    /// The live sessions, in the order in which they were registered.
    pub fn sessions(&self) -> (r: &[SessionInfo])
        ensures
            session_views(r@) == self@.sessions,
    {
        self.sessions.as_slice()
    }

    /// How many sessions are live.
    pub fn sessions_active(&self) -> (r: usize)
        ensures
            r == self@.sessions.len(),
    {
        self.sessions.len()
    }

    /// How many sessions there were in all.
    pub fn sessions_total(&self) -> (r: u64)
        ensures
            r == self@.total,
    {
        self.sessions_total
    }

    /// Note whether a session holds an upstream connection.
    pub fn set_attached(&mut self, pid: i32, attached: bool)
        ensures
            final(self)@ == old(self)@.set_attached(pid, attached),
    {
        let ghost before = session_views(self.sessions@);
        let mut i: usize = 0;
        while i < self.sessions.len()
            invariant
                i <= self.sessions.len(),
                self.sessions@.len() == before.len(),
                self.sessions_total == old(self).sessions_total,
                forall|j: int|
                    0 <= j < i ==> (#[trigger] self.sessions@[j])@ == marked(before, pid, attached)[j],
                forall|j: int|
                    i <= j < before.len() ==> (#[trigger] self.sessions@[j])@ == before[j],
            decreases self.sessions.len() - i,
        {
            if self.sessions[i].pid == pid {
                self.sessions[i].attached = attached;
            }
            i += 1;
        }
        assert(session_views(self.sessions@) =~= marked(before, pid, attached));
    }

    /// Remove a session, when it ends.
    pub fn unregister(&mut self, pid: i32)
        ensures
            final(self)@ == old(self)@.unregistered(pid),
    {
        let ghost before = session_views(self.sessions@);
        let ghost keep = |s: SessionView| s.pid != pid;
        let mut i: usize = 0;
        let ghost mut done: int = 0;
        assert(before.take(0).filter(keep) =~= Seq::<SessionView>::empty());
        while i < self.sessions.len()
            invariant
                i <= self.sessions.len(),
                0 <= done,
                keep == (|s: SessionView| s.pid != pid),
                done + (self.sessions@.len() - i) == before.len(),
                self.sessions_total == old(self).sessions_total,
                session_views(self.sessions@).take(i as int) == before.take(done).filter(keep),
                session_views(self.sessions@).skip(i as int) == before.skip(done),
            decreases self.sessions.len() - i,
        {
            let ghost here = session_views(self.sessions@);
            proof {
                assert(before.take(done + 1).drop_last() =~= before.take(done));
                assert(before.skip(done)[0] == here.skip(i as int)[0]);
                assert(before.take(done + 1).last() == here[i as int]);
                reveal(Seq::filter);
            }
            if self.sessions[i].pid == pid {
                let _ = self.sessions.remove(i);
                proof {
                    let now = session_views(self.sessions@);
                    assert(now =~= here.remove(i as int));
                    assert(now.take(i as int) =~= here.take(i as int));
                    assert(now.skip(i as int) =~= here.skip(i as int).skip(1));
                    assert(before.skip(done + 1) =~= before.skip(done).skip(1));
                }
            } else {
                proof {
                    assert(here.take(i + 1) =~= here.take(i as int).push(here[i as int]));
                    assert(here.skip(i + 1) =~= here.skip(i as int).skip(1));
                    assert(before.skip(done + 1) =~= before.skip(done).skip(1));
                }
                i += 1;
            }
            proof {
                done = done + 1;
            }
        }
        proof {
            assert(before.take(done) =~= before);
            assert(session_views(self.sessions@).take(i as int) =~= session_views(self.sessions@));
        }
    }
}

impl RuntimeView {
    /// One more session.
    pub open spec fn registered(self, info: SessionView) -> RuntimeView {
        RuntimeView {
            sessions: self.sessions.push(info),
            total: ((self.total + 1) % 0x1_0000_0000_0000_0000) as u64,
        }
    }

    /// A session got a connection, or gave it back.
    pub open spec fn set_attached(self, pid: i32, attached: bool) -> RuntimeView {
        RuntimeView { sessions: marked(self.sessions, pid, attached), ..self }
    }

    /// A session is gone.
    pub open spec fn unregistered(self, pid: i32) -> RuntimeView {
        RuntimeView { sessions: without(self.sessions, pid), ..self }
    }
}

/// A registered session is live until it is removed, and removing it leaves
/// no trace of it among the live ones and touches no other.
pub proof fn law_unregister(sessions: Seq<SessionView>, pid: i32, other: SessionView)
    ensures
        forall|i: int|
            0 <= i < without(sessions, pid).len() ==> (#[trigger] without(sessions, pid)[i]).pid
                != pid,
        other.pid != pid ==> (without(sessions, pid).contains(other) <==> sessions.contains(other)),
{
    let keep = |s: SessionView| s.pid != pid;
    assert forall|i: int| 0 <= i < without(sessions, pid).len() implies (#[trigger] without(
        sessions,
        pid,
    )[i]).pid != pid by {
        sessions.lemma_filter_pred(keep, i);
    }
    if other.pid != pid && sessions.contains(other) {
        let i = choose|i: int| 0 <= i < sessions.len() && sessions[i] == other;
        sessions.lemma_filter_contains(keep, i);
    }
    if without(sessions, pid).contains(other) {
        sessions.lemma_filter_contains_rev(keep, other);
    }
}

/// A session is listed from its start to its end, behind those before it; the
/// total counts every one and never goes down, but that it starts over behind
/// its range.
pub proof fn law_sessions_counted(r: RuntimeView, info: SessionView, pid: i32, attached: bool)
    ensures
        r.registered(info).sessions == r.sessions + seq![info],
        r.total < u64::MAX ==> r.registered(info).total == r.total + 1,
        r.total == u64::MAX ==> r.registered(info).total == 0,
        r.unregistered(pid).total == r.total,
        r.set_attached(pid, attached).total == r.total,
        r.unregistered(pid).sessions == r.sessions.filter(|s: SessionView| s.pid != pid),
        info.pid == pid && !r.sessions.contains(info) && (forall|s: SessionView| #[trigger]
            r.sessions.contains(s) ==> s.pid != pid) ==> r.registered(info).unregistered(
            pid,
        ).sessions == r.sessions,
{
    assert(r.sessions.push(info) =~= r.sessions + seq![info]);
    if info.pid == pid && (forall|s: SessionView| #[trigger] r.sessions.contains(s) ==> s.pid
        != pid) {
        lemma_all_stay(r.sessions, pid);
        let more = r.sessions.push(info);
        reveal(Seq::filter);
        assert(more.drop_last() =~= r.sessions);
    }
}

proof fn lemma_all_stay(sessions: Seq<SessionView>, pid: i32)
    requires
        forall|s: SessionView| #[trigger] sessions.contains(s) ==> s.pid != pid,
    ensures
        sessions.filter(|s: SessionView| s.pid != pid) == sessions,
    decreases sessions.len(),
{
    reveal(Seq::filter);
    if sessions.len() > 0 {
        assert forall|s: SessionView| #[trigger] sessions.drop_last().contains(s) implies s.pid
            != pid by {
            let i = choose|i: int|
                0 <= i < sessions.drop_last().len() && sessions.drop_last()[i] == s;
            assert(sessions[i] == s);
            assert(sessions.contains(s));
        }
        lemma_all_stay(sessions.drop_last(), pid);
        assert(sessions[sessions.len() - 1] == sessions.last());
        assert(sessions.contains(sessions.last()));
        assert(sessions.drop_last().push(sessions.last()) =~= sessions);
    } else {
        assert(sessions.filter(|s: SessionView| s.pid != pid) =~= sessions);
    }
}

/// Whether a session has a connection is noted for that session alone, and
/// nothing else about it changes.
pub proof fn law_attached_noted(r: RuntimeView, pid: i32, attached: bool, i: int)
    requires
        0 <= i < r.sessions.len(),
    ensures
        ({
            let was = r.sessions[i];
            let now = r.set_attached(pid, attached).sessions[i];
            &&& r.set_attached(pid, attached).sessions.len() == r.sessions.len()
            &&& was.pid == pid ==> now.attached == attached
            &&& was.pid != pid ==> now.attached == was.attached
            &&& now.pid == was.pid && now.addr == was.addr && now.user == was.user
            &&& now.database == was.database && now.is_admin == was.is_admin
            &&& now.started == was.started
        }),
{
}

} // verus!
