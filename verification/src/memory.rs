//! A cluster kept in memory: what each statement of the store does to the
//! fact table and what it brings back.

use crate::error::{Cause, Operation};
use crate::fact::{Fact, FactView};
use crate::key::Key;
use crate::outcome::{Failure, Outcome, OutcomeView};
use crate::row::{keys_of_rows, row_of_fact, row_of_key, rows_view, Row, RowView};
use crate::statement::{Statement, StatementView};
use vstd::prelude::*;

verus! {

/// What a cluster holds, as plain values.
pub struct ClusterView {
    /// Whether the cluster answers at all.
    pub online: bool,
    /// Whether the keyspace exists.
    pub keyspace: bool,
    /// Whether the fact table exists.
    pub table: bool,
    /// The facts in the table, in the order in which they are listed.
    pub rows: Seq<FactView>,
}

/// Whether some fact in `rows` has this key.
pub open spec fn holds(rows: Seq<FactView>, key: u128) -> bool {
    exists|i: int| 0 <= i < rows.len() && (#[trigger] rows[i]).key == key
}

/// The place of the fact with this key in `rows`, where there is one.
pub open spec fn place(rows: Seq<FactView>, key: u128) -> int {
    choose|i: int| 0 <= i < rows.len() && (#[trigger] rows[i]).key == key
}

/// Whether no two facts in `rows` share a key.
pub open spec fn distinct_keys(rows: Seq<FactView>) -> bool {
    forall|i: int, j: int|
        0 <= i < rows.len() && 0 <= j < rows.len() && i != j ==> (#[trigger] rows[i]).key != (
        #[trigger] rows[j]).key
}

/// `rows` with `fact` stored under its key: in the place of the fact that
/// had the key, or at the end if none had.
pub open spec fn put(rows: Seq<FactView>, fact: FactView) -> Seq<FactView> {
    if holds(rows, fact.key) {
        rows.update(place(rows, fact.key), fact)
    } else {
        rows.push(fact)
    }
}

/// `rows` without the fact that has this key.
pub open spec fn without(rows: Seq<FactView>, key: u128) -> Seq<FactView> {
    if holds(rows, key) {
        rows.remove(place(rows, key))
    } else {
        rows
    }
}

/// The facts in `rows` that have this key: one or none.
pub open spec fn matching(rows: Seq<FactView>, key: u128) -> Seq<FactView> {
    if holds(rows, key) {
        seq![rows[place(rows, key)]]
    } else {
        Seq::empty()
    }
}

/// One row for each fact, holding its key and nothing else.
pub open spec fn key_rows(rows: Seq<FactView>) -> Seq<RowView> {
    rows.map_values(|f: FactView| row_of_key(f.key))
}

/// One row for each fact, holding it in full.
pub open spec fn fact_rows(rows: Seq<FactView>) -> Seq<RowView> {
    rows.map_values(|f: FactView| row_of_fact(f))
}

/// The keys of the facts, in their order.
pub open spec fn keys_of(rows: Seq<FactView>) -> Seq<u128> {
    rows.map_values(|f: FactView| f.key)
}

/// A well-formed cluster: the table lies in the keyspace, facts lie in
/// the table, and no two facts share a key.
pub open spec fn cluster_wf(c: ClusterView) -> bool {
    &&& c.table ==> c.keyspace
    &&& !c.table ==> c.rows.len() == 0
    &&& distinct_keys(c.rows)
}

/// What a statement does to a cluster and what it brings back. Only the
/// operation and the values bound to the statement count: the text and
/// the consistency level change nothing in a cluster of one node.
pub open spec fn run(c: ClusterView, s: StatementView) -> (ClusterView, OutcomeView) {
    if !c.online {
        (c, OutcomeView::Failed(Failure::Disconnected))
    } else {
        match s.intent.operation {
            Operation::CreateKeyspace => (
                ClusterView { keyspace: true, ..c },
                OutcomeView::Done,
            ),
            Operation::CreateTable => if c.keyspace {
                (ClusterView { table: true, ..c }, OutcomeView::Done)
            } else {
                (c, OutcomeView::Failed(Failure::Rejected))
            },
            Operation::ResetData => if c.table {
                (ClusterView { rows: Seq::empty(), ..c }, OutcomeView::Done)
            } else {
                (c, OutcomeView::Failed(Failure::Rejected))
            },
            Operation::ListKeys => if c.table {
                (c, OutcomeView::Rows(key_rows(c.rows)))
            } else {
                (c, OutcomeView::Failed(Failure::Rejected))
            },
            Operation::Read => match s.intent.key {
                Some(key) if c.table => (
                    c,
                    OutcomeView::Rows(fact_rows(matching(c.rows, key))),
                ),
                _ => (c, OutcomeView::Failed(Failure::Rejected)),
            },
            Operation::Create | Operation::Update => match (
                s.intent.key,
                s.intent.fact,
                s.intent.kind,
            ) {
                (Some(key), Some(fact), Some(kind)) if c.table => (
                    ClusterView { rows: put(c.rows, FactView { key, fact, kind }), ..c },
                    OutcomeView::Done,
                ),
                _ => (c, OutcomeView::Failed(Failure::Rejected)),
            },
            Operation::Delete => match s.intent.key {
                Some(key) if c.table => (
                    ClusterView { rows: without(c.rows, key), ..c },
                    OutcomeView::Done,
                ),
                _ => (c, OutcomeView::Failed(Failure::Rejected)),
            },
        }
    }
}

/// In rows with distinct keys the fact at place `i` is the one that
/// `place` finds for its key.
pub proof fn lemma_place(rows: Seq<FactView>, i: int)
    requires
        distinct_keys(rows),
        0 <= i < rows.len(),
    ensures
        holds(rows, rows[i].key),
        place(rows, rows[i].key) == i,
{
    let key = rows[i].key;
    assert(0 <= i < rows.len() && rows[i].key == key);
    let p = place(rows, key);
    assert(0 <= p < rows.len() && rows[p].key == key);
    if p != i {
        assert(rows[p].key != rows[i].key);
    }
}

/// Storing a fact keeps the keys distinct, and afterwards the fact is
/// what its key finds.
pub proof fn lemma_put(rows: Seq<FactView>, fact: FactView)
    requires
        distinct_keys(rows),
    ensures
        distinct_keys(put(rows, fact)),
        holds(put(rows, fact), fact.key),
        put(rows, fact)[place(put(rows, fact), fact.key)] == fact,
        matching(put(rows, fact), fact.key) == seq![fact],
        forall|other: u128| other != fact.key ==> matching(put(rows, fact), other) == matching(rows, other),
        forall|other: u128| other != fact.key ==> (holds(put(rows, fact), other) <==> holds(rows, other)),
        put(rows, fact).len() == if holds(rows, fact.key) { rows.len() } else { rows.len() + 1 },
        forall|i: int|
            0 <= i < put(rows, fact).len() ==> (#[trigger] put(rows, fact)[i]).key == fact.key
                || holds(rows, put(rows, fact)[i].key),
{
    let after = put(rows, fact);
    let p = if holds(rows, fact.key) { place(rows, fact.key) } else { rows.len() as int };
    assert(0 <= p < after.len());
    assert(after[p] == fact);
    assert forall|i: int, j: int|
        0 <= i < after.len() && 0 <= j < after.len() && i != j implies (#[trigger] after[i]).key
        != (#[trigger] after[j]).key by {
        if i != p && j != p {
            assert(after[i] == rows[i] && after[j] == rows[j]);
        } else if i == p {
            assert(after[j] == rows[j]);
            if holds(rows, fact.key) {
                assert(rows[p].key == fact.key);
            }
        } else {
            assert(after[i] == rows[i]);
            if holds(rows, fact.key) {
                assert(rows[p].key == fact.key);
            }
        }
    }
    lemma_place(after, p);
    assert forall|i: int| 0 <= i < after.len() implies (#[trigger] after[i]).key == fact.key
        || holds(rows, after[i].key) by {
        if i != p {
            assert(after[i] == rows[i]);
        }
    }
    assert forall|other: u128| other != fact.key implies (holds(after, other) <==> holds(
        rows,
        other,
    )) && matching(after, other) == matching(rows, other) by {
        if holds(rows, other) {
            let q = place(rows, other);
            assert(q != p);
            assert(after[q] == rows[q]);
            lemma_place(after, q);
            lemma_place(rows, q);
        }
        if holds(after, other) {
            let q = place(after, other);
            assert(q != p);
            assert(after[q] == rows[q]);
            lemma_place(after, q);
            lemma_place(rows, q);
        }
    }
}

/// Removing a key keeps the keys distinct, and afterwards no fact has
/// the key.
pub proof fn lemma_without(rows: Seq<FactView>, key: u128)
    requires
        distinct_keys(rows),
    ensures
        distinct_keys(without(rows, key)),
        !holds(without(rows, key), key),
        matching(without(rows, key), key) == Seq::<FactView>::empty(),
        forall|other: u128| other != key ==> matching(without(rows, key), other) == matching(rows, other),
        forall|other: u128| other != key ==> (holds(without(rows, key), other) <==> holds(rows, other)),
        without(rows, key).len() == if holds(rows, key) { rows.len() - 1 } else { rows.len() as int },
        forall|i: int|
            0 <= i < without(rows, key).len() ==> holds(rows, (#[trigger] without(rows, key)[i]).key),
{
    let after = without(rows, key);
    assert forall|i: int| 0 <= i < after.len() implies holds(rows, (#[trigger] after[i]).key) by {
        if holds(rows, key) {
            let p = place(rows, key);
            let a = if i < p { i } else { i + 1 };
            assert(after[i] == rows[a]);
        }
    }
    if holds(rows, key) {
        let p = place(rows, key);
        assert forall|i: int| 0 <= i < after.len() implies (#[trigger] after[i]) == rows[if i < p {
            i
        } else {
            i + 1
        }] by {}
        assert forall|i: int, j: int|
            0 <= i < after.len() && 0 <= j < after.len() && i != j implies (
        #[trigger] after[i]).key != (#[trigger] after[j]).key by {
            let a = if i < p { i } else { i + 1 };
            let b = if j < p { j } else { j + 1 };
            assert(rows[a].key != rows[b].key);
        }
        if holds(after, key) {
            let q = place(after, key);
            let a = if q < p { q } else { q + 1 };
            assert(rows[a].key == rows[p].key);
        }
        assert forall|other: u128| other != key implies (holds(after, other) <==> holds(
            rows,
            other,
        )) && matching(after, other) == matching(rows, other) by {
            if holds(rows, other) {
                let q = place(rows, other);
                assert(q != p);
                let a = if q < p { q } else { q - 1 };
                assert(after[a] == rows[q]);
                lemma_place(after, a);
                lemma_place(rows, q);
            }
            if holds(after, other) {
                let q = place(after, other);
                let a = if q < p { q } else { q + 1 };
                assert(after[q] == rows[a]);
                lemma_place(after, q);
                lemma_place(rows, a);
            }
        }
    }
}

/// The rows that list the keys of facts are read back as those keys.
pub proof fn lemma_key_rows(rows: Seq<FactView>)
    ensures
        keys_of_rows(key_rows(rows)) == Ok::<Seq<u128>, Cause>(keys_of(rows)),
    decreases rows.len(),
{
    if rows.len() == 0 {
        assert(keys_of(rows) =~= Seq::<u128>::empty());
    } else {
        lemma_key_rows(rows.drop_last());
        assert(key_rows(rows).drop_last() =~= key_rows(rows.drop_last()));
        assert(key_rows(rows).last() == row_of_key(rows.last().key));
        assert(keys_of(rows) =~= keys_of(rows.drop_last()).push(rows.last().key));
    }
}

/// Whatever statement runs, a well-formed cluster stays well formed.
pub proof fn lemma_run_keeps_wf(c: ClusterView, s: StatementView)
    requires
        cluster_wf(c),
    ensures
        cluster_wf(run(c, s).0),
{
    if c.online {
        match s.intent.operation {
            Operation::Create | Operation::Update => match (
                s.intent.key,
                s.intent.fact,
                s.intent.kind,
            ) {
                (Some(key), Some(fact), Some(kind)) => {
                    lemma_put(c.rows, FactView { key, fact, kind });
                },
                _ => {},
            },
            Operation::Delete => match s.intent.key {
                Some(key) => {
                    lemma_without(c.rows, key);
                },
                _ => {},
            },
            _ => {},
        }
    }
}

/// The views of a sequence of facts.
pub open spec fn facts_view(facts: Seq<Fact>) -> Seq<FactView> {
    facts.map_values(|f: Fact| f@)
}

/// A cluster of one node, kept in memory.
#[derive(Debug)]
pub struct MemoryCluster {
    online: bool,
    keyspace: bool,
    table: bool,
    rows: Vec<Fact>,
}

impl View for MemoryCluster {
    type V = ClusterView;

    closed spec fn view(&self) -> ClusterView {
        ClusterView {
            online: self.online,
            keyspace: self.keyspace,
            table: self.table,
            rows: facts_view(self.rows@),
        }
    }
}

/// A cluster that is online and holds nothing, not even a keyspace.
pub open spec fn empty_cluster() -> ClusterView {
    ClusterView { online: true, keyspace: false, table: false, rows: Seq::empty() }
}

impl MemoryCluster {
    #[verifier::type_invariant]
    spec fn well_formed(self) -> bool {
        cluster_wf(self@)
    }

    /// A cluster that is online and holds nothing.
    pub fn new() -> (c: MemoryCluster)
        ensures
            c@ == empty_cluster(),
            cluster_wf(c@),
    {
        let c = MemoryCluster { online: true, keyspace: false, table: false, rows: Vec::new() };
        assert(facts_view(c.rows@) =~= Seq::<FactView>::empty());
        c
    }

    /// Takes the cluster off the network or puts it back.
    pub fn set_online(&mut self, online: bool)
        ensures
            final(self)@ == (ClusterView { online, ..old(self)@ }),
            cluster_wf(final(self)@),
    {
        proof {
            use_type_invariant(&*self);
        }
        self.online = online;
    }

    /// The number of facts in the table.
    pub fn len(&self) -> (n: usize)
        ensures
            n == self@.rows.len(),
            cluster_wf(self@),
    {
        proof {
            use_type_invariant(self);
        }
        self.rows.len()
    }

    /// The place of the fact with this key, if there is one.
    fn find(&self, key: Key) -> (r: Option<usize>)
        ensures
            match r {
                Some(i) => i < self@.rows.len() && holds(self@.rows, key@) && place(
                    self@.rows,
                    key@,
                ) == i,
                None => !holds(self@.rows, key@),
            },
    {
        proof {
            use_type_invariant(self);
        }
        let mut i: usize = 0;
        while i < self.rows.len()
            invariant
                i <= self.rows.len(),
                distinct_keys(facts_view(self.rows@)),
                forall|j: int| 0 <= j < i ==> (#[trigger] facts_view(self.rows@)[j]).key != key@,
            decreases self.rows.len() - i,
        {
            if self.rows[i].key == key {
                proof {
                    lemma_place(facts_view(self.rows@), i as int);
                }
                return Some(i);
            }
            i += 1;
        }
        None
    }

    /// Stores `fact` under its key.
    fn store(&mut self, fact: Fact)
        requires
            old(self)@.table,
        ensures
            final(self)@ == (ClusterView { rows: put(old(self)@.rows, fact@), ..old(self)@ }),
    {
        proof {
            use_type_invariant(&*self);
            lemma_put(self@.rows, fact@);
        }
        let ghost before = self@.rows;
        let found = self.find(fact.key);
        let mut rows: Vec<Fact> = Vec::new();
        core::mem::swap(&mut self.rows, &mut rows);
        match found {
            Some(i) => {
                rows.set(i, fact);
                assert(facts_view(rows@) =~= before.update(i as int, fact@));
            },
            None => {
                rows.push(fact);
                assert(facts_view(rows@) =~= before.push(fact@));
            },
        }
        self.rows = rows;
    }

    /// Removes the fact under `key`, if there is one.
    fn discard(&mut self, key: Key)
        ensures
            final(self)@ == (ClusterView { rows: without(old(self)@.rows, key@), ..old(self)@ }),
    {
        proof {
            use_type_invariant(&*self);
            lemma_without(self@.rows, key@);
        }
        let ghost before = self@.rows;
        let found = self.find(key);
        let mut rows: Vec<Fact> = Vec::new();
        core::mem::swap(&mut self.rows, &mut rows);
        match found {
            Some(i) => {
                rows.remove(i);
                assert(facts_view(rows@) =~= before.remove(i as int));
            },
            None => {},
        }
        self.rows = rows;
    }

    /// Removes every fact.
    fn clear(&mut self)
        ensures
            final(self)@ == (ClusterView { rows: Seq::empty(), ..old(self)@ }),
    {
        proof {
            use_type_invariant(&*self);
        }
        self.rows = Vec::new();
        assert(facts_view(self.rows@) =~= Seq::<FactView>::empty());
    }

    /// One row for each fact, holding its key.
    fn key_rows(&self) -> (rows: Vec<Row>)
        ensures
            rows_view(rows@) == key_rows(self@.rows),
    {
        let mut rows: Vec<Row> = Vec::new();
        let mut i: usize = 0;
        while i < self.rows.len()
            invariant
                i <= self.rows.len(),
                rows.len() == i,
                forall|j: int| 0 <= j < i ==> (#[trigger] rows[j])@ == row_of_key(self.rows[j].key@),
            decreases self.rows.len() - i,
        {
            rows.push(Row::from_key(self.rows[i].key));
            i += 1;
        }
        assert(rows_view(rows@) =~= key_rows(self@.rows));
        rows
    }

    /// The fact under `key` as a row, or no row.
    fn fact_rows(&self, key: Key) -> (rows: Vec<Row>)
        ensures
            rows_view(rows@) == fact_rows(matching(self@.rows, key@)),
    {
        let mut rows: Vec<Row> = Vec::new();
        match self.find(key) {
            Some(i) => {
                rows.push(Row::from_fact(&self.rows[i]));
            },
            None => {},
        }
        assert(rows_view(rows@) =~= fact_rows(matching(self@.rows, key@)));
        rows
    }

    /// Runs one statement: changes the cluster as the statement says and
    /// brings back its outcome.
    pub fn execute(&mut self, statement: &Statement) -> (outcome: Outcome)
        ensures
            (final(self)@, outcome@) == run(old(self)@, statement@),
            cluster_wf(final(self)@),
    {
        proof {
            use_type_invariant(&*self);
            lemma_run_keeps_wf(self@, statement@);
        }
        if !self.online {
            return Outcome::Failed(Failure::Disconnected);
        }
        match statement.intent.operation {
            Operation::CreateKeyspace => {
                self.keyspace = true;
                Outcome::Done
            },
            Operation::CreateTable => {
                if self.keyspace {
                    self.table = true;
                    Outcome::Done
                } else {
                    Outcome::Failed(Failure::Rejected)
                }
            },
            Operation::ResetData => {
                if self.table {
                    self.clear();
                    Outcome::Done
                } else {
                    Outcome::Failed(Failure::Rejected)
                }
            },
            Operation::ListKeys => {
                if self.table {
                    Outcome::Rows(self.key_rows())
                } else {
                    Outcome::Failed(Failure::Rejected)
                }
            },
            Operation::Read => {
                if !self.table {
                    return Outcome::Failed(Failure::Rejected);
                }
                match statement.intent.key {
                    Some(key) => Outcome::Rows(self.fact_rows(key)),
                    None => Outcome::Failed(Failure::Rejected),
                }
            },
            Operation::Create | Operation::Update => {
                if !self.table {
                    return Outcome::Failed(Failure::Rejected);
                }
                match (&statement.intent.key, &statement.intent.fact, &statement.intent.kind) {
                    (Some(key), Some(fact), Some(kind)) => {
                        self.store(Fact { key: *key, fact: fact.clone(), kind: kind.clone() });
                        Outcome::Done
                    },
                    _ => Outcome::Failed(Failure::Rejected),
                }
            },
            Operation::Delete => {
                if !self.table {
                    return Outcome::Failed(Failure::Rejected);
                }
                match statement.intent.key {
                    Some(key) => {
                        self.discard(key);
                        Outcome::Done
                    },
                    None => Outcome::Failed(Failure::Rejected),
                }
            },
        }
    }
}

} // verus!
