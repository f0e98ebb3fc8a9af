//! The named prepared statements of a session.
//!
//! Named statements live on whatever upstream connection the session is
//! attached to. On detach the connection is reset; on the next attach the
//! registry is replayed. A client `Parse` of a registered name is answered
//! locally, since the statement is already prepared after the replay.

use vstd::prelude::*;

use crate::text;
use crate::textmap::TextMap;
use crate::wire;
use crate::wire::{BackendMessage, FrontendMessage, TransactionStatus, UpstreamEvent};

verus! {

/// A prepared statement.
#[derive(Debug, Clone)]
pub struct Statement {
    pub sql: String,
    pub type_oids: Vec<u32>,
}

/// The view of a prepared statement.
#[verifier::ext_equal]
pub struct StatementView {
    pub sql: Seq<char>,
    pub type_oids: Seq<u32>,
}

impl View for Statement {
    type V = StatementView;

    open spec fn view(&self) -> StatementView {
        StatementView { sql: self.sql@, type_oids: self.type_oids@ }
    }
}

/// The statements of a session, by name.
#[derive(Debug)]
pub struct StatementRegistry {
    statements: TextMap<Statement>,
}

impl View for StatementRegistry {
    type V = Map<Seq<char>, StatementView>;

    closed spec fn view(&self) -> Map<Seq<char>, StatementView> {
        self.statements@.map_values(|s: Statement| s@)
    }
}

/// The message that prepares a statement under a name.
pub open spec fn prepare(name: Seq<char>, statement: StatementView) -> wire::FrontendView {
    wire::FrontendView::Parse {
        name: Some(name),
        sql: statement.sql,
        type_oids: statement.type_oids,
    }
}

/// Whether `names` lists every name of the registry exactly once.
pub open spec fn lists(names: Seq<Seq<char>>, registry: Map<Seq<char>, StatementView>) -> bool {
    &&& names.no_duplicates()
    &&& forall|name: Seq<char>| registry.contains_key(name) <==> #[trigger] names.contains(name)
}

/// The messages that prepare the named statements, in that order, and then
/// synchronize.
pub open spec fn replay_of(
    names: Seq<Seq<char>>,
    registry: Map<Seq<char>, StatementView>,
) -> Seq<wire::FrontendView> {
    names.map_values(|name: Seq<char>| prepare(name, registry[name])).push(wire::FrontendView::Sync)
}

/// Whether `messages` prepares exactly the statements of `registry`, each one
/// once, and then synchronizes.
pub open spec fn replays(
    messages: Seq<wire::FrontendView>,
    registry: Map<Seq<char>, StatementView>,
) -> bool {
    exists|names: Seq<Seq<char>>| #[trigger]
        lists(names, registry) && messages == replay_of(names, registry)
}

/// What to do with a message that arrives while the replay is answered.
pub enum ReplayStep {
    /// Wait for the next one.
    Continue,
    /// Note the connection's new parameter value, then wait for the next one.
    SetParameter { name: String, value: String },
    /// The statements are prepared; the connection is in this state.
    Done(TransactionStatus),
    /// The connection cannot be used.
    Failed,
}

/// Whether this is what an event means while a replay is answered.
pub open spec fn replay_means(event: wire::UpstreamEventView, r: ReplayStep) -> bool {
    match event {
        wire::UpstreamEventView::Message(
            wire::BackendView::ReadyForQuery { status },
        ) => r == ReplayStep::Done(status),
        wire::UpstreamEventView::Message(
            wire::BackendView::ParameterStatus { name, value },
        ) => r matches ReplayStep::SetParameter { name: n, value: v } && n@ == name && v@
            == value,
        wire::UpstreamEventView::Message(wire::BackendView::ErrorResponse { .. }) => r
            == ReplayStep::Failed,
        wire::UpstreamEventView::Message(_) => r == ReplayStep::Continue,
        _ => r == ReplayStep::Failed,
    }
}

impl StatementRegistry {
    /// No statements.
    pub fn new() -> (r: Self)
        ensures
            r@ == Map::<Seq<char>, StatementView>::empty(),
    {
        let r = StatementRegistry { statements: TextMap::new() };
        assert(r@ =~= Map::<Seq<char>, StatementView>::empty());
        r
    }

    /// Whether there are no statements.
    pub fn is_empty(&self) -> (r: bool)
        ensures
            r == (self@ == Map::<Seq<char>, StatementView>::empty()),
    {
        let n: usize = self.statements.len();
        proof {
            if n == 0 {
                assert(self@ =~= Map::<Seq<char>, StatementView>::empty());
            } else {
                let k = self.statements.keys()[0];
                assert(self.statements.keys().contains(k));
                assert(self@.contains_key(k));
            }
        }
        n == 0
    }

    /// Record a statement, in place of any statement of that name.
    pub fn record_parse(&mut self, name: &str, sql: String, type_oids: Vec<u32>)
        ensures
            final(self)@ == old(self)@.insert(
                name@,
                StatementView { sql: sql@, type_oids: type_oids@ },
            ),
    {
        let ghost before = self@;
        let statement = Statement { sql, type_oids };
        self.statements.insert(name.to_owned(), statement);
        assert(self@ =~= before.insert(name@, statement@));
    }

    /// The statement of that name.
    pub fn lookup(&self, name: &str) -> (r: Option<&Statement>)
        ensures
            match r {
                Some(s) => self@.contains_key(name@) && self@[name@] == s@,
                None => !self@.contains_key(name@),
            },
    {
        self.statements.get(name)
    }

    /// Drop the statement of that name.
    pub fn record_close(&mut self, name: &str)
        ensures
            final(self)@ == old(self)@.remove(name@),
    {
        let ghost before = self@;
        self.statements.remove(name);
        assert(self@ =~= before.remove(name@));
    }

    /// The messages that prepare every registered statement again on a clean
    /// upstream connection; none when there are no statements.
    pub fn replay(&self) -> (messages: Vec<FrontendMessage>)
        ensures
            self@ == Map::<Seq<char>, StatementView>::empty() ==> messages.len() == 0,
            self@ != Map::<Seq<char>, StatementView>::empty() ==> replays(
                wire::frontend_views(messages@),
                self@,
            ),
    {
        let mut messages: Vec<FrontendMessage> = Vec::new();
        if self.is_empty() {
            return messages;
        }
        let ghost keys = self.statements.keys();
        let n: usize = self.statements.len();
        let mut i: usize = 0;
        while i < n
            invariant
                i <= n,
                n == keys.len(),
                keys == self.statements.keys(),
                messages.len() == i,
                forall|j: int|
                    0 <= j < i ==> #[trigger] messages@[j]@ == prepare(keys[j], self@[keys[j]]),
            decreases n - i,
        {
            let name = self.statements.key_at(i).clone();
            let statement = self.statements.value_at(i);
            assert(self@[keys[i as int]] == statement@);
            messages.push(
                FrontendMessage::Parse {
                    name: Some(name),
                    sql: statement.sql.clone(),
                    type_oids: text::copy_u32s(&statement.type_oids),
                },
            );
            i += 1;
        }
        messages.push(FrontendMessage::Sync);
        proof {
            assert forall|name: Seq<char>| self@.contains_key(name) <==> #[trigger] keys.contains(
                name,
            ) by {
                assert(self.statements@.contains_key(name) <==> keys.contains(name));
            }
            assert(lists(keys, self@));
            assert(wire::frontend_views(messages@) =~= replay_of(keys, self@));
        }
        messages
    }

    /// What an upstream event means while the replay is answered: one
    /// `ParseComplete` per statement, then `ReadyForQuery`.
    pub fn on_replay(event: UpstreamEvent) -> (r: ReplayStep)
        ensures
            replay_means(event@, r),
    {
        match event {
            UpstreamEvent::Message(m) => match m {
                BackendMessage::ReadyForQuery { status } => ReplayStep::Done(status),
                BackendMessage::ParameterStatus { name, value } => ReplayStep::SetParameter {
                    name,
                    value,
                },
                BackendMessage::ErrorResponse { .. } => ReplayStep::Failed,
                _ => ReplayStep::Continue,
            },
            UpstreamEvent::Closed => ReplayStep::Failed,
            UpstreamEvent::Broken(_) => ReplayStep::Failed,
        }
    }
}

/// The SQL that a `Bind` executes, as far as the registry knows it.
pub open spec fn bound_sql(
    m: wire::FrontendView,
    registry: Map<Seq<char>, StatementView>,
) -> Option<Seq<char>> {
    match m {
        wire::FrontendView::Bind { statement: Some(name), .. } => if name.len() > 0
            && registry.contains_key(name) {
            Some(registry[name].sql)
        } else {
            None
        },
        _ => None,
    }
}

/// Resolve the SQL a `Bind` is executing from the statement registry (a
/// routing hint for attaches in the middle of a cycle).
pub fn bind_statement_sql(message: &FrontendMessage, registry: &StatementRegistry) -> (r: Option<
    String,
>)
    ensures
        text::opt_text(r) == bound_sql(message@, registry@),
{
    match message {
        FrontendMessage::Bind { statement: Some(name), .. } => {
            if text::is_blank(name.as_str()) {
                return None;
            }
            match registry.lookup(name.as_str()) {
                Some(s) => Some(s.sql.clone()),
                None => None,
            }
        },
        _ => None,
    }
}

/// Recording a statement and looking it up gives that statement, and no other
/// statement changes; closing it forgets it.
pub proof fn law_registry(
    registry: Map<Seq<char>, StatementView>,
    name: Seq<char>,
    statement: StatementView,
)
    ensures
        registry.insert(name, statement)[name] == statement,
        forall|other: Seq<char>| #[trigger]
            registry.contains_key(other) && other != name ==> {
                &&& registry.insert(name, statement).contains_key(other)
                &&& registry.insert(name, statement)[other] == registry[other]
                &&& registry.remove(name).contains_key(other)
                &&& registry.remove(name)[other] == registry[other]
            },
        !registry.remove(name).contains_key(name),
{
}

/// A replay prepares every statement of the session, each exactly once, under
/// its name and with its SQL and parameter types, prepares nothing else, and
/// ends with the one `Sync`.
pub proof fn law_replay_complete(
    messages: Seq<wire::FrontendView>,
    registry: Map<Seq<char>, StatementView>,
    name: Seq<char>,
)
    requires
        replays(messages, registry),
    ensures
        messages.len() > 0,
        messages.last() is Sync,
        registry.contains_key(name) ==> messages.contains(
            wire::FrontendView::Parse {
                name: Some(name),
                sql: registry[name].sql,
                type_oids: registry[name].type_oids,
            },
        ),
        forall|i: int| 0 <= i < messages.len() - 1 ==> (#[trigger] messages[i]) is Parse,
        forall|i: int|
            0 <= i < messages.len() ==> (#[trigger] messages[i] matches wire::FrontendView::Parse {
                name: n,
                sql,
                type_oids,
            } ==> n is Some && registry.contains_key(n->0) && registry[n->0].sql == sql
                && registry[n->0].type_oids == type_oids),
        forall|i: int, j: int|
            0 <= i < j < messages.len() - 1 ==> #[trigger] messages[i]->Parse_name
                != #[trigger] messages[j]->Parse_name,
{
    let names = choose|names: Seq<Seq<char>>| #[trigger]
        lists(names, registry) && messages == replay_of(names, registry);
    assert(messages.len() == names.len() + 1);
    assert forall|i: int| 0 <= i < names.len() implies #[trigger] messages[i] == prepare(
        names[i],
        registry[names[i]],
    ) && registry.contains_key(names[i]) by {
        assert(names.contains(names[i]));
    }
    if registry.contains_key(name) {
        assert(names.contains(name));
        let i = choose|i: int| 0 <= i < names.len() && names[i] == name;
        assert(messages[i] == prepare(name, registry[name]));
    }
    assert forall|i: int, j: int| 0 <= i < j < messages.len() - 1 implies #[trigger] messages[i]->Parse_name
        != #[trigger] messages[j]->Parse_name by {
        assert(messages[i] == prepare(names[i], registry[names[i]]));
        assert(messages[j] == prepare(names[j], registry[names[j]]));
        assert(names[i] != names[j]);
    }
}

/// A `Bind` runs the SQL of the named statement that it binds; the unnamed
/// statement, one that is not known and any other message run none that the
/// registry could tell.
pub proof fn law_bound_sql(
    registry: Map<Seq<char>, StatementView>,
    name: Seq<char>,
    statement: StatementView,
    m: wire::FrontendView,
)
    ensures
        m is Bind && m->statement == Some(name) && name.len() > 0 ==> bound_sql(
            m,
            registry.insert(name, statement),
        ) == Some(statement.sql),
        m is Bind && m->statement == Some(name) ==> bound_sql(m, registry.remove(name)) is None,
        m is Bind && (m->statement is None || m->statement == Some(Seq::<char>::empty()))
            ==> bound_sql(m, registry) is None,
        !(m is Bind) ==> bound_sql(m, registry) is None,
{
}

/// A replay succeeds with the server's `ReadyForQuery`, and fails with the first
/// error or when the connection is lost: a connection that lacks a statement is
/// never handed over.
pub proof fn law_replay_answered(event: wire::UpstreamEventView, r: ReplayStep)
    requires
        replay_means(event, r),
    ensures
        r matches ReplayStep::Done(status) ==> event == wire::UpstreamEventView::Message(
            wire::BackendView::ReadyForQuery { status },
        ),
        r is Failed <==> !(event is Message) || (event matches wire::UpstreamEventView::Message(m)
            && m is ErrorResponse),
        event matches wire::UpstreamEventView::Message(m) ==> {
            &&& m is ReadyForQuery <==> r is Done
            &&& m is ParameterStatus <==> r is SetParameter
        },
        r matches ReplayStep::SetParameter { name, value } ==> event
            == wire::UpstreamEventView::Message(
            wire::BackendView::ParameterStatus { name: name@, value: value@ },
        ),
{
}

} // verus!
