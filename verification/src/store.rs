//! The store run against a cluster kept in memory: every operation sends
//! its statement to the cluster and reads the outcome, one statement at
//! a time.

use crate::error::{key_view, StoreError, StoreErrorView};
use crate::fact::{Fact, FactView};
use crate::facts::{
    context_after, context_after_create, context_after_keys, context_after_read,
    context_after_update, create_request, fresh_context, request, ContextView, FactsContext,
};
use crate::key::{known, lemma_free_from, lemma_noted, lemma_noted_all, start_value, Key};
use crate::level::{ConsistencyPolicy, Level};
use crate::memory::{
    cluster_wf, empty_cluster, fact_rows, holds, keys_of, lemma_key_rows, lemma_put,
    lemma_without, matching, place, run, ClusterView, MemoryCluster,
};
use crate::migration::{texts_view, Migration, MigrationView, StageView, Step};
use crate::outcome::{
    fact_result, key_result, keys_reply, keys_result, read_reply, unit_result, write_reply,
    OutcomeView,
};
use crate::random::{choose_key, nothing_chosen, random_request};
use crate::row::{keys_view, lemma_row_round_trip, row_of_fact};
use crate::seed::SEED_KIND;
use crate::statement::{
    delete_statement, keyspace_statement, list_keys_statement, read_statement, reset_statement,
    table_statement, update_statement, Statement, StatementView,
};
use vstd::prelude::*;

verus! {

/// What a store with its cluster holds, as plain values.
pub struct StoreView {
    pub ctx: ContextView,
    pub cluster: ClusterView,
}

/// Whether the context knows every key in the table as taken: each lies
/// at or below the last key it issued or is one that it has seen. The
/// next key it issues is then in no row.
pub open spec fn covered(s: StoreView) -> bool {
    forall|i: int|
        0 <= i < s.cluster.rows.len() ==> known(
            s.ctx.last_key,
            s.ctx.seen,
            (#[trigger] s.cluster.rows[i]).key,
        )
}

/// A well-formed store: a well-formed cluster whose keys the context
/// covers.
pub open spec fn store_wf(s: StoreView) -> bool {
    cluster_wf(s.cluster) && covered(s)
}

/// The store after `statement` ran on its cluster, with the outcome.
pub open spec fn exchange(s: StoreView, statement: StatementView) -> (StoreView, OutcomeView) {
    let (cluster, outcome) = run(s.cluster, statement);
    (StoreView { ctx: context_after(s.ctx, outcome), cluster }, outcome)
}

/// A statement that changes the store: nothing happens if it is refused
/// for want of a session; else it runs and its outcome is read.
pub open spec fn write_op(s: StoreView, asked: Result<StatementView, StoreErrorView>) -> (
    StoreView,
    Result<(), StoreErrorView>,
) {
    match asked {
        Err(e) => (s, Err(e)),
        Ok(statement) => {
            let (s1, outcome) = exchange(s, statement);
            (s1, write_reply(statement.intent, outcome))
        },
    }
}

/// Creating the keyspace.
pub open spec fn keyspace_op(s: StoreView) -> (StoreView, Result<(), StoreErrorView>) {
    write_op(
        s,
        request(s.ctx, keyspace_statement(s.ctx.policy.replica_count, s.ctx.policy.write)),
    )
}

/// Creating the table.
pub open spec fn table_op(s: StoreView) -> (StoreView, Result<(), StoreErrorView>) {
    write_op(s, request(s.ctx, table_statement(s.ctx.policy.write)))
}

/// Emptying the table.
pub open spec fn reset_op(s: StoreView) -> (StoreView, Result<(), StoreErrorView>) {
    write_op(s, request(s.ctx, reset_statement()))
}

/// Creating a fact at clock reading `now`: the new key on success.
pub open spec fn create_op(s: StoreView, fact: Seq<char>, kind: Seq<char>, now: u64) -> (
    StoreView,
    Result<u128, StoreErrorView>,
) {
    let issued = StoreView { ctx: context_after_create(s.ctx, now), ..s };
    match create_request(s.ctx, fact, kind, now) {
        Err(e) => (issued, Err(e)),
        Ok((key, statement)) => {
            let (s1, outcome) = exchange(issued, statement);
            (
                s1,
                match write_reply(statement.intent, outcome) {
                    Ok(_) => Ok(key),
                    Err(e) => Err(e),
                },
            )
        },
    }
}

/// Reading the fact under `key`.
pub open spec fn read_op(s: StoreView, key: u128) -> (StoreView, Result<FactView, StoreErrorView>) {
    match request(s.ctx, read_statement(key, s.ctx.policy.read)) {
        Err(e) => (s, Err(e)),
        Ok(statement) => {
            let (cluster, outcome) = run(s.cluster, statement);
            (
                StoreView { ctx: context_after_read(s.ctx, key, outcome), cluster },
                read_reply(key, outcome),
            )
        },
    }
}

/// Listing the keys of all facts.
pub open spec fn list_op(s: StoreView) -> (StoreView, Result<Seq<u128>, StoreErrorView>) {
    match request(s.ctx, list_keys_statement(s.ctx.policy.read)) {
        Err(e) => (s, Err(e)),
        Ok(statement) => {
            let (cluster, outcome) = run(s.cluster, statement);
            (StoreView { ctx: context_after_keys(s.ctx, outcome), cluster }, keys_reply(outcome))
        },
    }
}

/// Replacing text and tag of the fact under `key`, or storing them
/// under it where no fact has the key.
pub open spec fn update_op(s: StoreView, key: u128, fact: Seq<char>, kind: Seq<char>) -> (
    StoreView,
    Result<(), StoreErrorView>,
) {
    write_op(
        StoreView { ctx: context_after_update(s.ctx, key), ..s },
        request(s.ctx, update_statement(key, fact, kind, s.ctx.policy.write)),
    )
}

/// Removing the fact under `key`.
pub open spec fn delete_op(s: StoreView, key: u128) -> (StoreView, Result<(), StoreErrorView>) {
    write_op(s, request(s.ctx, delete_statement(key, s.ctx.policy.write)))
}

/// Reading the fact that was chosen, if one was: with no choice nothing
/// is sent.
pub open spec fn pick_op(s: StoreView, choice: Option<u128>) -> (
    StoreView,
    Result<FactView, StoreErrorView>,
) {
    match choice {
        Some(key) => read_op(s, key),
        None => (s, Err(random_request(s.ctx, None)->Err_0)),
    }
}

/// The result of an operation without what it returned.
pub open spec fn unit_of(r: Result<u128, StoreErrorView>) -> Result<(), StoreErrorView> {
    match r {
        Ok(_) => Ok(()),
        Err(e) => Err(e),
    }
}

/// Storing the first `n` example facts in their order, each with the tag
/// of the examples under a key of its own, stopping at the first that
/// fails.
pub open spec fn seed_op(s: StoreView, corpus: Seq<Seq<char>>, now: u64, n: nat) -> (
    StoreView,
    Result<(), StoreErrorView>,
)
    decreases n,
{
    if n == 0 {
        (s, Ok(()))
    } else {
        let (s1, r1) = seed_op(s, corpus, now, (n - 1) as nat);
        if r1 is Err {
            (s1, r1)
        } else {
            let (s2, r2) = create_op(s1, corpus[n - 1], SEED_KIND@, now);
            (s2, unit_of(r2))
        }
    }
}

/// The migrations: the keyspace, then the table, each of which must
/// succeed; then the emptying of the table, whose failure is passed
/// over; then the example facts.
pub open spec fn migrate_op(s: StoreView, corpus: Seq<Seq<char>>, now: u64) -> (
    StoreView,
    Result<(), StoreErrorView>,
) {
    let (s1, r1) = keyspace_op(s);
    if r1 is Err {
        (s1, r1)
    } else {
        let (s2, r2) = table_op(s1);
        if r2 is Err {
            (s2, r2)
        } else {
            seed_op(reset_op(s2).0, corpus, now, corpus.len())
        }
    }
}

/// Where a store stands that began the migrations as `start` and has
/// come to the stage of `m`.
pub open spec fn tracks(m: MigrationView, s: StoreView, start: StoreView, now: u64) -> bool {
    let ok = Ok::<(), StoreErrorView>(());
    let (s1, r1) = keyspace_op(start);
    let (s2, r2) = table_op(s1);
    let s3 = reset_op(s2).0;
    match m.stage {
        StageView::Keyspace => s == start,
        StageView::Table => (s, ok) == (s1, r1),
        StageView::Reset => r1 is Ok && (s, ok) == (s2, r2),
        StageView::Seed(i) => {
            &&& r1 is Ok
            &&& r2 is Ok
            &&& i <= m.corpus.len()
            &&& (s, ok) == seed_op(s3, m.corpus, now, i)
        },
        StageView::Finished => (s, ok) == migrate_op(start, m.corpus, now),
        StageView::Aborted(e) => (s, Err::<(), StoreErrorView>(e)) == migrate_op(
            start,
            m.corpus,
            now,
        ),
    }
}

/// The steps that a migration at this stage still has before it.
pub open spec fn steps_left(m: MigrationView) -> nat {
    match m.stage {
        StageView::Keyspace => m.corpus.len() + 4,
        StageView::Table => m.corpus.len() + 3,
        StageView::Reset => m.corpus.len() + 2,
        StageView::Seed(i) => (m.corpus.len() - i + 1) as nat,
        StageView::Finished => 0,
        StageView::Aborted(_) => 0,
    }
}

/// Once the seeding has failed, it stays failed where it stopped.
pub proof fn lemma_seed_stops(s: StoreView, corpus: Seq<Seq<char>>, now: u64, n: nat, m: nat)
    requires
        n <= m,
        seed_op(s, corpus, now, n).1 is Err,
    ensures
        seed_op(s, corpus, now, m) == seed_op(s, corpus, now, n),
    decreases m - n,
{
    if n < m {
        lemma_seed_stops(s, corpus, now, n, (m - 1) as nat);
    }
}

/// A store stays covered where neither its rows nor what its context
/// knows of keys change, and where the table is emptied.
pub proof fn lemma_covered_same(s: StoreView, s1: StoreView)
    requires
        covered(s),
        s1.cluster.rows == s.cluster.rows || s1.cluster.rows.len() == 0,
        s1.ctx.last_key == s.ctx.last_key,
        s1.ctx.seen == s.ctx.seen,
    ensures
        covered(s1),
{
    assert forall|i: int| 0 <= i < s1.cluster.rows.len() implies known(
        s1.ctx.last_key,
        s1.ctx.seen,
        (#[trigger] s1.cluster.rows[i]).key,
    ) by {
        assert(s1.cluster.rows[i] == s.cluster.rows[i]);
    }
}

/// Bringing up keyspace and table and emptying the table keep a store
/// well formed.
pub proof fn lemma_schema_keeps_wf(s: StoreView)
    requires
        store_wf(s),
    ensures
        store_wf(keyspace_op(s).0),
        store_wf(table_op(s).0),
        store_wf(reset_op(s).0),
{
    lemma_covered_same(s, keyspace_op(s).0);
    lemma_covered_same(s, table_op(s).0);
    lemma_covered_same(s, reset_op(s).0);
}

/// Creating a fact keeps a store well formed. Where it succeeds, the
/// key it returns was in no row, and the table is what it was with the
/// new fact behind the others.
pub proof fn lemma_create_keeps_wf(s: StoreView, fact: Seq<char>, kind: Seq<char>, now: u64)
    requires
        store_wf(s),
    ensures
        store_wf(create_op(s, fact, kind, now).0),
        create_op(s, fact, kind, now).1 matches Ok(key) ==> {
            &&& !holds(s.cluster.rows, key)
            &&& !known(s.ctx.last_key, s.ctx.seen, key)
            &&& create_op(s, fact, kind, now).0.cluster.rows == s.cluster.rows.push(
                FactView { key, fact, kind },
            )
        },
{
    let (s1, created) = create_op(s, fact, kind, now);
    lemma_free_from(s.ctx.seen, start_value(s.ctx.last_key, now));
    match create_request(s.ctx, fact, kind, now) {
        Ok((key, statement)) => {
            assert(!known(s.ctx.last_key, s.ctx.seen, key));
            if holds(s.cluster.rows, key) {
                let p = place(s.cluster.rows, key);
                assert(s.cluster.rows[p].key == key);
            }
            lemma_put(s.cluster.rows, FactView { key, fact, kind });
            assert forall|i: int| 0 <= i < s1.cluster.rows.len() implies known(
                s1.ctx.last_key,
                s1.ctx.seen,
                (#[trigger] s1.cluster.rows[i]).key,
            ) by {
                if i < s.cluster.rows.len() {
                    assert(s1.cluster.rows[i] == s.cluster.rows[i]);
                }
            }
        },
        Err(_) => {
            lemma_covered_same(s, s1);
        },
    }
}

/// Updating keeps a store well formed: the key that the update may
/// store a fact under counts as seen.
pub proof fn lemma_update_keeps_wf(s: StoreView, key: u128, fact: Seq<char>, kind: Seq<char>)
    requires
        store_wf(s),
    ensures
        store_wf(update_op(s, key, fact, kind).0),
{
    let s1 = update_op(s, key, fact, kind).0;
    lemma_put(s.cluster.rows, FactView { key, fact, kind });
    lemma_noted(s.ctx.last_key, s.ctx.seen, key);
    assert forall|i: int| 0 <= i < s1.cluster.rows.len() implies known(
        s1.ctx.last_key,
        s1.ctx.seen,
        (#[trigger] s1.cluster.rows[i]).key,
    ) by {
        let k = s1.cluster.rows[i].key;
        if s1.cluster.rows == s.cluster.rows {
            assert(s1.cluster.rows[i] == s.cluster.rows[i]);
        } else if k != key {
            let p = place(s.cluster.rows, k);
            assert(s.cluster.rows[p].key == k);
        }
    }
}

/// Removing keeps a store well formed.
pub proof fn lemma_delete_keeps_wf(s: StoreView, key: u128)
    requires
        store_wf(s),
    ensures
        store_wf(delete_op(s, key).0),
{
    let s1 = delete_op(s, key).0;
    lemma_without(s.cluster.rows, key);
    assert forall|i: int| 0 <= i < s1.cluster.rows.len() implies known(
        s1.ctx.last_key,
        s1.ctx.seen,
        (#[trigger] s1.cluster.rows[i]).key,
    ) by {
        let k = s1.cluster.rows[i].key;
        if s1.cluster.rows != s.cluster.rows {
            let p = place(s.cluster.rows, k);
            assert(s.cluster.rows[p].key == k);
        } else {
            assert(s1.cluster.rows[i] == s.cluster.rows[i]);
        }
    }
}

/// The context of a covered store knows every key of its table.
pub proof fn lemma_covered_keys(s: StoreView)
    requires
        covered(s),
    ensures
        forall|i: int|
            0 <= i < keys_of(s.cluster.rows).len() ==> known(
                s.ctx.last_key,
                s.ctx.seen,
                #[trigger] keys_of(s.cluster.rows)[i],
            ),
{
    assert forall|i: int| 0 <= i < keys_of(s.cluster.rows).len() implies known(
        s.ctx.last_key,
        s.ctx.seen,
        #[trigger] keys_of(s.cluster.rows)[i],
    ) by {
        assert(s.cluster.rows[i].key == keys_of(s.cluster.rows)[i]);
    }
}

/// Reading and listing keep a store well formed, and change nothing in
/// one that is: every key they see is known already.
pub proof fn lemma_reads_keep_wf(s: StoreView, key: u128)
    requires
        store_wf(s),
    ensures
        read_op(s, key).0 == (StoreView {
            ctx: ContextView { link: read_op(s, key).0.ctx.link, ..s.ctx },
            ..s
        }),
        list_op(s).0 == (StoreView {
            ctx: ContextView { link: list_op(s).0.ctx.link, ..s.ctx },
            ..s
        }),
        store_wf(read_op(s, key).0),
        store_wf(list_op(s).0),
{
    lemma_key_rows(s.cluster.rows);
    lemma_covered_keys(s);
    lemma_noted_all(s.ctx.last_key, s.ctx.seen, keys_of(s.cluster.rows));
    if read_op(s, key).1 is Ok {
        let found = matching(s.cluster.rows, key);
        if holds(s.cluster.rows, key) {
            let p = place(s.cluster.rows, key);
            assert(fact_rows(found)[0] == row_of_fact(found[0]));
            lemma_row_round_trip(found[0]);
            assert(s.cluster.rows[p].key == key);
        } else {
            assert(fact_rows(found) =~= Seq::empty());
        }
    }
    lemma_covered_same(s, read_op(s, key).0);
    lemma_covered_same(s, list_op(s).0);
}

/// Seeding keeps a store well formed.
pub proof fn lemma_seed_keeps_wf(s: StoreView, corpus: Seq<Seq<char>>, now: u64, n: nat)
    requires
        store_wf(s),
    ensures
        store_wf(seed_op(s, corpus, now, n).0),
    decreases n,
{
    if n > 0 {
        lemma_seed_keeps_wf(s, corpus, now, (n - 1) as nat);
        let (s1, r1) = seed_op(s, corpus, now, (n - 1) as nat);
        if r1 is Ok {
            lemma_create_keeps_wf(s1, corpus[n - 1], SEED_KIND@, now);
        }
    }
}

/// The migrations keep a store well formed.
pub proof fn lemma_migrate_keeps_wf(s: StoreView, corpus: Seq<Seq<char>>, now: u64)
    requires
        store_wf(s),
    ensures
        store_wf(migrate_op(s, corpus, now).0),
{
    let s1 = keyspace_op(s).0;
    lemma_schema_keeps_wf(s);
    let s2 = table_op(s1).0;
    lemma_schema_keeps_wf(s1);
    let s3 = reset_op(s2).0;
    lemma_schema_keeps_wf(s2);
    lemma_seed_keeps_wf(s3, corpus, now, corpus.len());
}

/// A store with the cluster it talks to, both in memory.
#[derive(Debug)]
pub struct LocalStore {
    ctx: FactsContext,
    cluster: MemoryCluster,
}

impl View for LocalStore {
    type V = StoreView;

    closed spec fn view(&self) -> StoreView {
        StoreView { ctx: self.ctx@, cluster: self.cluster@ }
    }
}

impl LocalStore {
    /// A store connected to an empty cluster: no keyspace, no table.
    pub fn new() -> (store: LocalStore)
        ensures
            store@ == (StoreView { ctx: fresh_context(), cluster: empty_cluster() }),
            store_wf(store@),
    {
        LocalStore { ctx: FactsContext::connected(), cluster: MemoryCluster::new() }
    }

    /// The context of the store.
    pub fn context(&self) -> (ctx: &FactsContext)
        ensures
            ctx@ == self@.ctx,
    {
        &self.ctx
    }

    /// The number of facts in the table.
    pub fn len(&self) -> (n: usize)
        ensures
            n == self@.cluster.rows.len(),
            cluster_wf(self@.cluster),
    {
        self.cluster.len()
    }

    /// Takes the cluster off the network or puts it back.
    pub fn set_online(&mut self, online: bool)
        ensures
            final(self)@ == (StoreView {
                cluster: ClusterView { online, ..old(self)@.cluster },
                ..old(self)@
            }),
            store_wf(old(self)@) ==> store_wf(final(self)@),
    {
        let ghost before = self@;
        self.cluster.set_online(online);
        proof {
            if covered(before) {
                lemma_covered_same(before, self@);
            }
        }
    }

    /// Sets the level at which facts are read from now on.
    pub fn set_read_consistency(&mut self, level: Level)
        ensures
            final(self)@.cluster == old(self)@.cluster,
            final(self)@.ctx == (ContextView {
                policy: ConsistencyPolicy { read: level, ..old(self)@.ctx.policy },
                ..old(self)@.ctx
            }),
            store_wf(old(self)@) ==> store_wf(final(self)@),
    {
        let ghost before = self@;
        self.ctx.set_read_consistency(level);
        proof {
            if covered(before) {
                lemma_covered_same(before, self@);
            }
        }
    }

    /// Sets the level at which facts are written from now on.
    pub fn set_write_consistency(&mut self, level: Level)
        ensures
            final(self)@.cluster == old(self)@.cluster,
            final(self)@.ctx == (ContextView {
                policy: ConsistencyPolicy { write: level, ..old(self)@.ctx.policy },
                ..old(self)@.ctx
            }),
            store_wf(old(self)@) ==> store_wf(final(self)@),
    {
        let ghost before = self@;
        self.ctx.set_write_consistency(level);
        proof {
            if covered(before) {
                lemma_covered_same(before, self@);
            }
        }
    }

    /// Runs a statement that changes the store, if one was given.
    fn write(&mut self, asked: Result<Statement, StoreError>) -> (r: Result<(), StoreError>)
        ensures
            (final(self)@, unit_result(r)) == write_op(
                old(self)@,
                match asked {
                    Ok(s) => Ok(s@),
                    Err(e) => Err(e@),
                },
            ),
    {
        match asked {
            Err(e) => Err(e),
            Ok(statement) => {
                let outcome = self.cluster.execute(&statement);
                self.ctx.write_reply(statement.intent, &outcome)
            },
        }
    }

    /// Creates the keyspace unless it is there.
    pub fn create_keyspace(&mut self) -> (r: Result<(), StoreError>)
        ensures
            (final(self)@, unit_result(r)) == keyspace_op(old(self)@),
            store_wf(old(self)@) ==> store_wf(final(self)@),
    {
        proof {
            if store_wf(self@) {
                lemma_schema_keeps_wf(self@);
            }
        }
        let asked = self.ctx.create_keyspace();
        self.write(asked)
    }

    /// Creates the fact table unless it is there.
    pub fn create_table(&mut self) -> (r: Result<(), StoreError>)
        ensures
            (final(self)@, unit_result(r)) == table_op(old(self)@),
            store_wf(old(self)@) ==> store_wf(final(self)@),
    {
        proof {
            if store_wf(self@) {
                lemma_schema_keeps_wf(self@);
            }
        }
        let asked = self.ctx.create_table();
        self.write(asked)
    }

    /// Removes every fact.
    pub fn reset_data(&mut self) -> (r: Result<(), StoreError>)
        ensures
            (final(self)@, unit_result(r)) == reset_op(old(self)@),
            store_wf(old(self)@) ==> store_wf(final(self)@),
    {
        proof {
            if store_wf(self@) {
                lemma_schema_keeps_wf(self@);
            }
        }
        let asked = self.ctx.reset_data();
        self.write(asked)
    }

    /// Stores a new fact under a key issued for clock reading `now`, and
    /// returns the key.
    pub fn create(&mut self, fact: &str, kind: &str, now: u64) -> (r: Result<Key, StoreError>)
        ensures
            (final(self)@, key_result(r)) == create_op(old(self)@, fact@, kind@, now),
            store_wf(old(self)@) ==> store_wf(final(self)@),
    {
        proof {
            if store_wf(self@) {
                lemma_create_keeps_wf(self@, fact@, kind@, now);
            }
        }
        match self.ctx.create_fact(fact, kind, now) {
            Err(e) => Err(e),
            Ok((key, statement)) => {
                let outcome = self.cluster.execute(&statement);
                match self.ctx.write_reply(statement.intent, &outcome) {
                    Ok(_) => Ok(key),
                    Err(e) => Err(e),
                }
            },
        }
    }

    /// Fetches the fact under `key`.
    pub fn read(&mut self, key: Key) -> (r: Result<Fact, StoreError>)
        ensures
            (final(self)@, fact_result(r)) == read_op(old(self)@, key@),
            store_wf(old(self)@) ==> store_wf(final(self)@),
    {
        proof {
            if store_wf(self@) {
                lemma_reads_keep_wf(self@, key@);
            }
        }
        match self.ctx.read_fact(key) {
            Err(e) => Err(e),
            Ok(statement) => {
                let outcome = self.cluster.execute(&statement);
                self.ctx.read_fact_reply(key, &outcome)
            },
        }
    }

    /// Lists the keys of all facts.
    pub fn list_keys(&mut self) -> (r: Result<Vec<Key>, StoreError>)
        ensures
            (final(self)@, keys_result(r)) == list_op(old(self)@),
            store_wf(old(self)@) ==> store_wf(final(self)@),
    {
        proof {
            if store_wf(self@) {
                lemma_reads_keep_wf(self@, 0);
            }
        }
        match self.ctx.get_keys() {
            Err(e) => Err(e),
            Ok(statement) => {
                let outcome = self.cluster.execute(&statement);
                self.ctx.get_keys_reply(&outcome)
            },
        }
    }

    /// Replaces text and tag of the fact under `key`. Where no fact has
    /// the key, one is stored under it: that is no error.
    pub fn update(&mut self, key: Key, fact: &str, kind: &str) -> (r: Result<(), StoreError>)
        ensures
            (final(self)@, unit_result(r)) == update_op(old(self)@, key@, fact@, kind@),
            store_wf(old(self)@) ==> store_wf(final(self)@),
    {
        proof {
            if store_wf(self@) {
                lemma_update_keeps_wf(self@, key@, fact@, kind@);
            }
        }
        let asked = self.ctx.update_fact(fact, kind, key);
        self.write(asked)
    }

    /// Removes the fact under `key`. Where no fact has the key, nothing
    /// changes: that is no error.
    pub fn delete(&mut self, key: Key) -> (r: Result<(), StoreError>)
        ensures
            (final(self)@, unit_result(r)) == delete_op(old(self)@, key@),
            store_wf(old(self)@) ==> store_wf(final(self)@),
    {
        proof {
            if store_wf(self@) {
                lemma_delete_keeps_wf(self@, key@);
            }
        }
        let asked = self.ctx.delete_fact(key);
        self.write(asked)
    }

    /// Fetches the fact under the key that was chosen, if one was.
    pub fn read_chosen(&mut self, choice: Option<Key>) -> (r: Result<Fact, StoreError>)
        ensures
            (final(self)@, fact_result(r)) == pick_op(old(self)@, key_view(choice)),
            store_wf(old(self)@) ==> store_wf(final(self)@),
    {
        match choice {
            Some(key) => self.read(key),
            None => Err(nothing_chosen(&self.ctx)),
        }
    }

    /// Fetches a fact chosen at random: lists the keys, then reads one of
    /// them. Whichever key is drawn, the result is that of reading it
    /// after the listing; with no key to draw from, or a listing that
    /// fails, nothing is read.
    pub fn random(&mut self) -> (r: Result<Fact, StoreError>)
        ensures
            ({
                let (s1, listed) = list_op(old(self)@);
                match listed {
                    Err(e) => final(self)@ == s1 && fact_result(r) == Err::<
                        FactView,
                        StoreErrorView,
                    >(e),
                    Ok(keys) => if keys.len() == 0 {
                        (final(self)@, fact_result(r)) == pick_op(s1, None)
                    } else {
                        exists|i: int|
                            0 <= i < keys.len() && (final(self)@, fact_result(r)) == pick_op(
                                s1,
                                Some(#[trigger] keys[i]),
                            )
                    },
                }
            }),
            store_wf(old(self)@) ==> store_wf(final(self)@),
    {
        let keys = match self.list_keys() {
            Ok(keys) => keys,
            Err(e) => {
                return Err(e);
            },
        };
        let choice = choose_key(&keys);
        proof {
            match choice {
                Some(k) => {
                    let i = choose|i: int| 0 <= i < keys@.len() && keys@[i] == k;
                    assert(keys_view(keys@)[i] == k@);
                },
                None => {},
            }
        }
        self.read_chosen(choice)
    }

    /// Runs the migrations with these example facts, every new key
    /// issued for clock reading `now`.
    pub fn run_migrations(&mut self, corpus: Vec<String>, now: u64) -> (r: Result<
        (),
        StoreError,
    >)
        ensures
            (final(self)@, unit_result(r)) == migrate_op(old(self)@, texts_view(corpus@), now),
            store_wf(old(self)@) ==> store_wf(final(self)@),
    {
        proof {
            if store_wf(self@) {
                lemma_migrate_keeps_wf(self@, texts_view(corpus@), now);
            }
        }
        let ghost start = self@;
        let ghost texts = texts_view(corpus@);
        let mut m = Migration::with_corpus(corpus);
        loop
            invariant
                start == old(self)@,
                texts == texts_view(corpus@),
                m@.corpus == texts,
                tracks(m@, self@, start, now),
                !(m@.stage is Finished),
                store_wf(start) ==> store_wf(migrate_op(start, texts, now).0),
            decreases steps_left(m@),
        {
            let ghost before = m@;
            let ghost held = self@;
            match m.next(&mut self.ctx, now) {
                Step::Send(statement) => {
                    let outcome = self.cluster.execute(&statement);
                    m.advance(&mut self.ctx, &statement, &outcome);
                    proof {
                        match before.stage {
                            StageView::Seed(i) => {
                                if m@.stage is Aborted {
                                    lemma_seed_stops(
                                        reset_op(table_op(keyspace_op(start).0).0).0,
                                        texts,
                                        now,
                                        i + 1,
                                        texts.len(),
                                    );
                                }
                            },
                            _ => {},
                        }
                    }
                },
                Step::Finished => {
                    return Ok(());
                },
                Step::Aborted(e) => {
                    proof {
                        match before.stage {
                            StageView::Seed(i) => {
                                lemma_seed_stops(
                                    reset_op(table_op(keyspace_op(start).0).0).0,
                                    texts,
                                    now,
                                    i + 1,
                                    texts.len(),
                                );
                            },
                            StageView::Reset => {
                                lemma_seed_stops(
                                    reset_op(table_op(keyspace_op(start).0).0).0,
                                    texts,
                                    now,
                                    1,
                                    texts.len(),
                                );
                            },
                            _ => {},
                        }
                    }
                    return Err(e);
                },
            }
        }
    }
}

} // verus!
