//! The context of the store: the state of the session, the consistency
//! policy and the key generator, with what each operation sends to the
//! cluster and what each answer means.

use crate::error::{Cause, Intent, IntentView, Operation, StoreError, StoreErrorView};
use crate::fact::Fact;
use crate::key::{next_value, noted, noted_all, Key, KeyGenerator};
use crate::level::{
    default_read_level, default_write_level, ConsistencyPolicy, Level, DEFAULT_REPLICAS,
};
use crate::outcome::{
    conclude_keys, conclude_read, conclude_write, fact_result, keys_reply, keys_result,
    read_reply, unit_result, write_reply, Failure, Outcome, OutcomeView,
};
use crate::row::keys_view;
use crate::statement::{
    create_statement, delete_statement, keyspace_statement, list_keys_statement, read_statement,
    reset_statement, table_statement, update_statement, Statement, StatementView,
};
use vstd::prelude::*;

verus! {

/// The state of the one session with the cluster. It only moves forward:
/// a lost session is never taken up again.
#[derive(Clone, Copy, Debug, PartialEq, Eq, Structural)]
pub enum Link {
    Disconnected,
    Connected,
    Failed,
}

/// The store's side of the conversation with the cluster.
#[derive(Debug)]
pub struct FactsContext {
    link: Link,
    policy: ConsistencyPolicy,
    keys: KeyGenerator,
}

/// What a `FactsContext` holds, as plain values.
pub struct ContextView {
    pub link: Link,
    pub policy: ConsistencyPolicy,
    /// The value of the key that the context issued last, if it has
    /// issued any. Every key it issues lies above.
    pub last_key: Option<u128>,
    /// The keys that the context has seen in use without having issued
    /// them. It issues none of them.
    pub seen: Seq<u128>,
}

impl View for FactsContext {
    type V = ContextView;

    closed spec fn view(&self) -> ContextView {
        ContextView {
            link: self.link,
            policy: self.policy,
            last_key: self.keys.last,
            seen: self.keys.seen@,
        }
    }
}

/// The context right after the session was set up.
pub open spec fn fresh_context() -> ContextView {
    ContextView {
        link: Link::Connected,
        policy: ConsistencyPolicy {
            read: default_read_level(),
            write: default_write_level(),
            replica_count: DEFAULT_REPLICAS,
        },
        last_key: None,
        seen: Seq::empty(),
    }
}

/// The state of the session after an outcome: a session that is found
/// gone has failed for good.
pub open spec fn link_after(link: Link, outcome: OutcomeView) -> Link {
    if link == Link::Connected && outcome == OutcomeView::Failed(Failure::Disconnected) {
        Link::Failed
    } else {
        link
    }
}

/// The context after an outcome.
pub open spec fn context_after(ctx: ContextView, outcome: OutcomeView) -> ContextView {
    ContextView { link: link_after(ctx.link, outcome), ..ctx }
}

/// The context after the listing of keys had this outcome: every key
/// that was listed counts as seen.
pub open spec fn context_after_keys(ctx: ContextView, outcome: OutcomeView) -> ContextView {
    ContextView {
        link: link_after(ctx.link, outcome),
        seen: match keys_reply(outcome) {
            Ok(keys) => noted_all(ctx.last_key, ctx.seen, keys),
            Err(_) => ctx.seen,
        },
        ..ctx
    }
}

/// The context after the read of `key` had this outcome: the key of a
/// fact that was read counts as seen.
pub open spec fn context_after_read(ctx: ContextView, key: u128, outcome: OutcomeView)
    -> ContextView {
    ContextView {
        link: link_after(ctx.link, outcome),
        seen: match read_reply(key, outcome) {
            Ok(fact) => noted(ctx.last_key, ctx.seen, fact.key),
            Err(_) => ctx.seen,
        },
        ..ctx
    }
}

/// The context after an update of `key` was asked for: where the
/// statement is given out, the key counts as seen, since the update
/// stores a fact under it. That holds back this one key, not the keys
/// below it.
pub open spec fn context_after_update(ctx: ContextView, key: u128) -> ContextView {
    if ctx.link == Link::Connected {
        ContextView { seen: noted(ctx.last_key, ctx.seen, key), ..ctx }
    } else {
        ctx
    }
}

/// What is sent when `statement` is asked for: the statement while the
/// session stands, else a connection error.
pub open spec fn request(ctx: ContextView, statement: StatementView) -> Result<
    StatementView,
    StoreErrorView,
> {
    if ctx.link == Link::Connected {
        Ok(statement)
    } else {
        Err(StoreErrorView::Connection)
    }
}

/// What the creation of a fact at clock reading `now` gives: the new key
/// and the statement that stores the fact under it. The key is the first
/// value from the start of the tick on, and above the last key issued,
/// that the context has not seen in use. Only where every such value up
/// to the largest is taken is no key left.
pub open spec fn create_request(ctx: ContextView, fact: Seq<char>, kind: Seq<char>, now: u64)
    -> Result<(u128, StatementView), StoreErrorView> {
    if ctx.link != Link::Connected {
        Err(StoreErrorView::Connection)
    } else if next_value(ctx.last_key, ctx.seen, now) > u128::MAX {
        Err(
            StoreErrorView::Query {
                intent: IntentView {
                    operation: Operation::Create,
                    key: None,
                    fact: Some(fact),
                    kind: Some(kind),
                },
                cause: Cause::KeysExhausted,
            },
        )
    } else {
        let key = next_value(ctx.last_key, ctx.seen, now) as u128;
        Ok((key, create_statement(key, fact, kind, ctx.policy.write)))
    }
}

/// The context after the creation of a fact was asked for: the new key
/// is the last one issued.
pub open spec fn context_after_create(ctx: ContextView, now: u64) -> ContextView {
    if ctx.link == Link::Connected && next_value(ctx.last_key, ctx.seen, now) <= u128::MAX {
        ContextView { last_key: Some(next_value(ctx.last_key, ctx.seen, now) as u128), ..ctx }
    } else {
        ctx
    }
}

/// The view of a statement or the error in its place.
pub open spec fn statement_result(r: Result<Statement, StoreError>) -> Result<
    StatementView,
    StoreErrorView,
> {
    match r {
        Ok(s) => Ok(s@),
        Err(e) => Err(e@),
    }
}

/// The view of a new key with its statement, or the error in their place.
pub open spec fn created_result(r: Result<(Key, Statement), StoreError>) -> Result<
    (u128, StatementView),
    StoreErrorView,
> {
    match r {
        Ok((k, s)) => Ok((k@, s@)),
        Err(e) => Err(e@),
    }
}

impl FactsContext {
    /// The context for a session that was just set up, or a connection
    /// error if it could not be: without a session there is no store.
    pub fn new(session_up: bool) -> (r: Result<FactsContext, StoreError>)
        ensures
            session_up ==> (r matches Ok(ctx) && ctx@ == fresh_context()),
            !session_up ==> (r matches Err(e) && e@ == StoreErrorView::Connection),
    {
        if session_up {
            Ok(FactsContext::connected())
        } else {
            Err(StoreError::Connection)
        }
    }

    /// The context for a session that stands.
    pub fn connected() -> (ctx: FactsContext)
        ensures
            ctx@ == fresh_context(),
    {
        FactsContext {
            link: Link::Connected,
            policy: ConsistencyPolicy::new(),
            keys: KeyGenerator::new(),
        }
    }

    /// The context for a session that stands, with this policy in place
    /// of the default one.
    pub fn with_policy(policy: ConsistencyPolicy) -> (ctx: FactsContext)
        ensures
            ctx@ == (ContextView { policy, ..fresh_context() }),
    {
        FactsContext { link: Link::Connected, policy, keys: KeyGenerator::new() }
    }

    /// The context for a session that stands, taking up the keys where
    /// an earlier context left them: what that one issued and saw stays
    /// known.
    pub fn with_keys(keys: KeyGenerator) -> (ctx: FactsContext)
        ensures
            ctx@ == (ContextView { last_key: keys.last, seen: keys.seen@, ..fresh_context() }),
    {
        FactsContext { link: Link::Connected, policy: ConsistencyPolicy::new(), keys }
    }

    /// The state of the session.
    pub fn link(&self) -> (l: Link)
        ensures
            l == self@.link,
    {
        self.link
    }

    /// The policy in force. An operation that takes it once sees one
    /// value of each setting for its whole run.
    pub fn policy(&self) -> (p: ConsistencyPolicy)
        ensures
            p == self@.policy,
    {
        self.policy
    }

    /// The level at which facts are read.
    pub fn read_consistency(&self) -> (l: Level)
        ensures
            l == self@.policy.read,
    {
        self.policy.get_read_consistency()
    }

    /// The level at which facts are written.
    pub fn write_consistency(&self) -> (l: Level)
        ensures
            l == self@.policy.write,
    {
        self.policy.get_write_consistency()
    }

    /// Sets the level at which facts are read from now on.
    pub fn set_read_consistency(&mut self, level: Level)
        ensures
            final(self)@ == (ContextView {
                policy: ConsistencyPolicy { read: level, ..old(self)@.policy },
                ..old(self)@
            }),
    {
        self.policy.set_read_consistency(level);
    }

    /// Sets the level at which facts are written from now on.
    pub fn set_write_consistency(&mut self, level: Level)
        ensures
            final(self)@ == (ContextView {
                policy: ConsistencyPolicy { write: level, ..old(self)@.policy },
                ..old(self)@
            }),
    {
        self.policy.set_write_consistency(level);
    }

    /// The statement that lists the keys of all facts, at the level for
    /// reads.
    pub fn get_keys(&self) -> (r: Result<Statement, StoreError>)
        ensures
            statement_result(r) == request(self@, list_keys_statement(self@.policy.read)),
    {
        if self.link != Link::Connected {
            return Err(StoreError::Connection);
        }
        Ok(Statement::list_keys(self.policy.read))
    }

    /// Issues a key for a new fact at clock reading `now` and gives the
    /// statement that stores the fact under it, at the level for writes.
    /// The key lies above every key that the context has issued and is
    /// none that it has seen in use, so it is new to a table whose keys
    /// the context has seen.
    pub fn create_fact(&mut self, fact: &str, kind: &str, now: u64) -> (r: Result<
        (Key, Statement),
        StoreError,
    >)
        ensures
            created_result(r) == create_request(old(self)@, fact@, kind@, now),
            final(self)@ == context_after_create(old(self)@, now),
    {
        if self.link != Link::Connected {
            return Err(StoreError::Connection);
        }
        match self.keys.issue(now) {
            Some(key) => Ok((key, Statement::create(key, fact, kind, self.policy.write))),
            None => Err(
                StoreError::Query {
                    intent: Intent {
                        operation: Operation::Create,
                        key: None,
                        fact: Some(fact.to_owned()),
                        kind: Some(kind.to_owned()),
                    },
                    cause: Cause::KeysExhausted,
                },
            ),
        }
    }

    /// The statement that fetches the fact under `key`, at the level for
    /// reads.
    pub fn read_fact(&self, key: Key) -> (r: Result<Statement, StoreError>)
        ensures
            statement_result(r) == request(self@, read_statement(key@, self@.policy.read)),
    {
        if self.link != Link::Connected {
            return Err(StoreError::Connection);
        }
        Ok(Statement::read(key, self.policy.read))
    }

    /// The statement that replaces text and tag of the fact under `key`,
    /// at the level for writes. Whether such a fact exists is not looked
    /// at: where none does, the update stores one, so the key counts as
    /// seen from here on and no later fact is created under it.
    pub fn update_fact(&mut self, fact: &str, kind: &str, key: Key) -> (r: Result<
        Statement,
        StoreError,
    >)
        ensures
            statement_result(r) == request(
                old(self)@,
                update_statement(key@, fact@, kind@, old(self)@.policy.write),
            ),
            final(self)@ == context_after_update(old(self)@, key@),
    {
        if self.link != Link::Connected {
            return Err(StoreError::Connection);
        }
        self.keys.note(key);
        Ok(Statement::update(key, fact, kind, self.policy.write))
    }

    /// The statement that removes the fact under `key`, at the level for
    /// writes.
    pub fn delete_fact(&self, key: Key) -> (r: Result<Statement, StoreError>)
        ensures
            statement_result(r) == request(self@, delete_statement(key@, self@.policy.write)),
    {
        if self.link != Link::Connected {
            return Err(StoreError::Connection);
        }
        Ok(Statement::delete(key, self.policy.write))
    }

    /// The statement that creates the keyspace with the policy's
    /// replication factor.
    pub fn create_keyspace(&self) -> (r: Result<Statement, StoreError>)
        ensures
            statement_result(r) == request(
                self@,
                keyspace_statement(self@.policy.replica_count, self@.policy.write),
            ),
    {
        if self.link != Link::Connected {
            return Err(StoreError::Connection);
        }
        Ok(Statement::create_keyspace(self.policy.replica_count, self.policy.write))
    }

    /// The statement that creates the fact table.
    pub fn create_table(&self) -> (r: Result<Statement, StoreError>)
        ensures
            statement_result(r) == request(self@, table_statement(self@.policy.write)),
    {
        if self.link != Link::Connected {
            return Err(StoreError::Connection);
        }
        Ok(Statement::create_table(self.policy.write))
    }

    /// The statement that removes every fact.
    pub fn reset_data(&self) -> (r: Result<Statement, StoreError>)
        ensures
            statement_result(r) == request(self@, reset_statement()),
    {
        if self.link != Link::Connected {
            return Err(StoreError::Connection);
        }
        Ok(Statement::reset_data())
    }

    /// Takes note of an outcome: a session that is found gone has
    /// failed.
    pub fn observe(&mut self, outcome: &Outcome)
        ensures
            final(self)@ == context_after(old(self)@, outcome@),
    {
        if self.link == Link::Connected {
            match outcome {
                Outcome::Failed(Failure::Disconnected) => {
                    self.link = Link::Failed;
                },
                _ => {},
            }
        }
    }

    /// What the outcome of the listing of keys means. The keys that were
    /// listed count as seen.
    pub fn get_keys_reply(&mut self, outcome: &Outcome) -> (r: Result<Vec<Key>, StoreError>)
        ensures
            keys_result(r) == keys_reply(outcome@),
            final(self)@ == context_after_keys(old(self)@, outcome@),
    {
        self.observe(outcome);
        let r = conclude_keys(outcome);
        match &r {
            Ok(keys) => {
                let ghost start = self.keys.seen@;
                let mut i: usize = 0;
                assert(keys_view(keys@).take(0) =~= Seq::<u128>::empty());
                while i < keys.len()
                    invariant
                        i <= keys.len(),
                        self.link == link_after(old(self)@.link, outcome@),
                        self.policy == old(self)@.policy,
                        self.keys.last == old(self)@.last_key,
                        self.keys.seen@ == noted_all(
                            self.keys.last,
                            start,
                            keys_view(keys@).take(i as int),
                        ),
                    decreases keys.len() - i,
                {
                    proof {
                        let all = keys_view(keys@);
                        assert(all.take(i + 1).drop_last() =~= all.take(i as int));
                        assert(all.take(i + 1).last() == keys[i as int]@);
                    }
                    self.keys.note(keys[i]);
                    i = i + 1;
                }
                assert(keys_view(keys@).take(i as int) =~= keys_view(keys@));
            },
            Err(_) => {},
        }
        r
    }

    /// What the outcome of the read of `key` means. The key of the fact
    /// that was read counts as seen.
    pub fn read_fact_reply(&mut self, key: Key, outcome: &Outcome) -> (r: Result<
        Fact,
        StoreError,
    >)
        ensures
            fact_result(r) == read_reply(key@, outcome@),
            final(self)@ == context_after_read(old(self)@, key@, outcome@),
    {
        self.observe(outcome);
        let r = conclude_read(key, outcome);
        match &r {
            Ok(fact) => {
                self.keys.note(fact.key);
            },
            Err(_) => {},
        }
        r
    }

    /// What the outcome of a statement that changes the store means;
    /// `intent` is the intent of that statement.
    pub fn write_reply(&mut self, intent: Intent, outcome: &Outcome) -> (r: Result<
        (),
        StoreError,
    >)
        ensures
            unit_result(r) == write_reply(intent@, outcome@),
            final(self)@ == context_after(old(self)@, outcome@),
    {
        self.observe(outcome);
        conclude_write(intent, outcome)
    }
}

} // verus!
