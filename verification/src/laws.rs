//! What holds of the store's operations taken together, proved over the
//! cluster kept in memory.

use crate::error::{Cause, StoreErrorView};
use crate::fact::FactView;
use crate::facts::Link;
use crate::key::{lemma_free_from, lemma_free_within, lemma_noted, next_value, start_value};
use crate::memory::{
    fact_rows, holds, keys_of, lemma_key_rows, lemma_put, lemma_without, matching, place,
};
use crate::row::{lemma_row_round_trip, row_of_fact};
use crate::seed::SEED_KIND;
use crate::store::{
    create_op, delete_op, keyspace_op, lemma_create_keeps_wf, lemma_reads_keep_wf,
    lemma_schema_keeps_wf, lemma_update_keeps_wf, list_op, migrate_op, read_op, reset_op,
    seed_op, store_wf, table_op, update_op, StoreView,
};
use vstd::prelude::*;

verus! {

/// Whether statements of the store reach the fact table: the session
/// stands, the cluster answers and the table exists.
pub open spec fn ready(s: StoreView) -> bool {
    s.ctx.link == Link::Connected && s.cluster.online && s.cluster.table
}

/// A listing that succeeds returns the keys of the facts in the table
/// and changes nothing.
pub proof fn law_list_keys(s: StoreView)
    requires
        store_wf(s),
        ready(s),
    ensures
        list_op(s) == (s, Ok::<Seq<u128>, StoreErrorView>(keys_of(s.cluster.rows))),
{
    lemma_key_rows(s.cluster.rows);
    lemma_reads_keep_wf(s, 0);
}

/// A listing succeeds only where statements reach the table.
pub proof fn law_list_needs_table(s: StoreView)
    requires
        list_op(s).1 is Ok,
    ensures
        ready(s),
{
}

/// A fact that is created gets a key that no fact in the table has. The
/// table is what it was with the new fact behind the others: one row
/// more, every earlier row unchanged.
pub proof fn law_create_takes_new_key(s: StoreView, fact: Seq<char>, kind: Seq<char>, now: u64)
    requires
        store_wf(s),
        create_op(s, fact, kind, now).1 is Ok,
    ensures
        ({
            let (s1, created) = create_op(s, fact, kind, now);
            let key = created->Ok_0;
            &&& !holds(s.cluster.rows, key)
            &&& s1.cluster.rows == s.cluster.rows.push(FactView { key, fact, kind })
            &&& s1.cluster.rows.len() == s.cluster.rows.len() + 1
            &&& store_wf(s1)
        }),
{
    lemma_create_keeps_wf(s, fact, kind, now);
}

/// Reading a fact right after it was created returns the text and the
/// tag it was created with, under the key that the creation returned.
pub proof fn law_read_after_create(s: StoreView, fact: Seq<char>, kind: Seq<char>, now: u64)
    requires
        store_wf(s),
        create_op(s, fact, kind, now).1 is Ok,
    ensures
        ({
            let (s1, created) = create_op(s, fact, kind, now);
            let key = created->Ok_0;
            read_op(s1, key) == (s1, Ok::<FactView, StoreErrorView>(FactView { key, fact, kind }))
        }),
{
    let (s1, created) = create_op(s, fact, kind, now);
    let key = created->Ok_0;
    let stored = FactView { key, fact, kind };
    lemma_create_keeps_wf(s, fact, kind, now);
    lemma_put(s.cluster.rows, stored);
    lemma_row_round_trip(stored);
    assert(fact_rows(matching(s1.cluster.rows, key)) =~= seq![row_of_fact(stored)]);
    lemma_reads_keep_wf(s1, key);
}

/// After a fact was created, the listing holds its key in addition and
/// is otherwise as before: one key more.
pub proof fn law_create_adds_one_key(s: StoreView, fact: Seq<char>, kind: Seq<char>, now: u64)
    requires
        store_wf(s),
        create_op(s, fact, kind, now).1 is Ok,
    ensures
        ({
            let (s1, created) = create_op(s, fact, kind, now);
            let key = created->Ok_0;
            &&& list_op(s).1 is Ok
            &&& list_op(s1).1 is Ok
            &&& !list_op(s).1->Ok_0.contains(key)
            &&& list_op(s1).1->Ok_0 == list_op(s).1->Ok_0.push(key)
            &&& list_op(s1).1->Ok_0.len() == list_op(s).1->Ok_0.len() + 1
        }),
{
    let (s1, created) = create_op(s, fact, kind, now);
    let key = created->Ok_0;
    let stored = FactView { key, fact, kind };
    lemma_create_keeps_wf(s, fact, kind, now);
    lemma_key_rows(s.cluster.rows);
    lemma_key_rows(s1.cluster.rows);
    assert(keys_of(s1.cluster.rows) =~= keys_of(s.cluster.rows).push(key));
    if keys_of(s.cluster.rows).contains(key) {
        let i = choose|i: int|
            0 <= i < keys_of(s.cluster.rows).len() && keys_of(s.cluster.rows)[i] == key;
        assert(s.cluster.rows[i].key == key);
    }
}

/// Two facts created one after the other get two keys, the second above
/// the first, and the table grows by two rows, whether or not the two
/// facts say the same.
pub proof fn law_two_creates(
    s: StoreView,
    fact: Seq<char>,
    kind: Seq<char>,
    now: u64,
    next_fact: Seq<char>,
    next_kind: Seq<char>,
    later: u64,
)
    requires
        store_wf(s),
        create_op(s, fact, kind, now).1 is Ok,
        create_op(create_op(s, fact, kind, now).0, next_fact, next_kind, later).1 is Ok,
    ensures
        ({
            let (s1, first) = create_op(s, fact, kind, now);
            let (s2, second) = create_op(s1, next_fact, next_kind, later);
            &&& first->Ok_0 < second->Ok_0
            &&& s2.cluster.rows == s.cluster.rows.push(
                FactView { key: first->Ok_0, fact, kind },
            ).push(FactView { key: second->Ok_0, fact: next_fact, kind: next_kind })
            &&& s2.cluster.rows.len() == s.cluster.rows.len() + 2
        }),
{
    lemma_create_keeps_wf(s, fact, kind, now);
    lemma_create_keeps_wf(create_op(s, fact, kind, now).0, next_fact, next_kind, later);
}

/// Creating a fact leaves every other fact as it was.
pub proof fn law_create_keeps_others(
    s: StoreView,
    fact: Seq<char>,
    kind: Seq<char>,
    now: u64,
    other: u128,
)
    requires
        store_wf(s),
        create_op(s, fact, kind, now).1 is Ok,
        other != create_op(s, fact, kind, now).1->Ok_0,
    ensures
        read_op(create_op(s, fact, kind, now).0, other).1 == read_op(s, other).1,
{
    let key = create_op(s, fact, kind, now).1->Ok_0;
    lemma_put(s.cluster.rows, FactView { key, fact, kind });
}

/// After the fact under a key was removed, the listing no longer holds
/// that key and is otherwise as before: one key less.
pub proof fn law_delete_removes_one_key(s: StoreView, key: u128)
    requires
        store_wf(s),
        holds(s.cluster.rows, key),
        delete_op(s, key).1 is Ok,
    ensures
        ({
            let s1 = delete_op(s, key).0;
            let before = list_op(s).1;
            let after = list_op(s1).1;
            &&& before is Ok
            &&& after is Ok
            &&& after->Ok_0.len() == before->Ok_0.len() - 1
            &&& after->Ok_0 == before->Ok_0.remove(place(s.cluster.rows, key))
            &&& before->Ok_0[place(s.cluster.rows, key)] == key
            &&& !after->Ok_0.contains(key)
        }),
{
    let s1 = delete_op(s, key).0;
    let p = place(s.cluster.rows, key);
    lemma_key_rows(s.cluster.rows);
    lemma_key_rows(s1.cluster.rows);
    lemma_without(s.cluster.rows, key);
    assert(s1.cluster.rows == s.cluster.rows.remove(p));
    assert(keys_of(s1.cluster.rows) =~= keys_of(s.cluster.rows).remove(p));
    if keys_of(s1.cluster.rows).contains(key) {
        let i = choose|i: int|
            0 <= i < keys_of(s1.cluster.rows).len() && keys_of(s1.cluster.rows)[i] == key;
        assert(s1.cluster.rows[i].key == key);
    }
}

/// Removing a fact leaves every other fact as it was.
pub proof fn law_delete_keeps_others(s: StoreView, key: u128, other: u128)
    requires
        store_wf(s),
        delete_op(s, key).1 is Ok,
        other != key,
    ensures
        read_op(delete_op(s, key).0, other).1 == read_op(s, other).1,
{
    lemma_without(s.cluster.rows, key);
}

/// Reading a fact right after an update returns the text and the tag of
/// the update under the same key, whether or not the key held a fact
/// before.
pub proof fn law_read_after_update(s: StoreView, key: u128, fact: Seq<char>, kind: Seq<char>)
    requires
        store_wf(s),
        update_op(s, key, fact, kind).1 is Ok,
    ensures
        ({
            let s1 = update_op(s, key, fact, kind).0;
            read_op(s1, key) == (s1, Ok::<FactView, StoreErrorView>(FactView { key, fact, kind }))
        }),
{
    let s1 = update_op(s, key, fact, kind).0;
    let stored = FactView { key, fact, kind };
    lemma_update_keeps_wf(s, key, fact, kind);
    lemma_put(s.cluster.rows, stored);
    lemma_row_round_trip(stored);
    assert(fact_rows(matching(s1.cluster.rows, key)) =~= seq![row_of_fact(stored)]);
    lemma_reads_keep_wf(s1, key);
}

/// An update leaves every other fact as it was.
pub proof fn law_update_keeps_others(
    s: StoreView,
    key: u128,
    fact: Seq<char>,
    kind: Seq<char>,
    other: u128,
)
    requires
        store_wf(s),
        update_op(s, key, fact, kind).1 is Ok,
        other != key,
    ensures
        read_op(update_op(s, key, fact, kind).0, other).1 == read_op(s, other).1,
{
    lemma_put(s.cluster.rows, FactView { key, fact, kind });
}

/// A key under which an update stored a fact is never given to a fact
/// that is created afterwards.
pub proof fn law_create_after_update(
    s: StoreView,
    key: u128,
    fact: Seq<char>,
    kind: Seq<char>,
    next_fact: Seq<char>,
    next_kind: Seq<char>,
    now: u64,
)
    requires
        store_wf(s),
        update_op(s, key, fact, kind).1 is Ok,
        create_op(update_op(s, key, fact, kind).0, next_fact, next_kind, now).1 is Ok,
    ensures
        ({
            let s1 = update_op(s, key, fact, kind).0;
            let (s2, created) = create_op(s1, next_fact, next_kind, now);
            &&& created->Ok_0 != key
            &&& read_op(s2, key).1 == Ok::<FactView, StoreErrorView>(FactView { key, fact, kind })
        }),
{
    let s1 = update_op(s, key, fact, kind).0;
    law_read_after_update(s, key, fact, kind);
    lemma_update_keeps_wf(s, key, fact, kind);
    lemma_noted(s.ctx.last_key, s.ctx.seen, key);
    lemma_create_keeps_wf(s1, next_fact, next_kind, now);
    law_create_keeps_others(s1, next_fact, next_kind, now, key);
}

/// Reading a key that no fact has reports that the fact is missing, and
/// changes nothing.
pub proof fn law_read_absent(s: StoreView, key: u128)
    requires
        ready(s),
        !holds(s.cluster.rows, key),
    ensures
        read_op(s, key) == (
            s,
            Err::<FactView, StoreErrorView>(StoreErrorView::NotFound { key }),
        ),
{
    assert(fact_rows(matching(s.cluster.rows, key)) =~= Seq::empty());
}

/// Reading a key whose fact was removed reports that the fact is
/// missing.
pub proof fn law_read_after_delete(s: StoreView, key: u128)
    requires
        store_wf(s),
        delete_op(s, key).1 is Ok,
    ensures
        read_op(delete_op(s, key).0, key).1 == Err::<FactView, StoreErrorView>(
            StoreErrorView::NotFound { key },
        ),
{
    let s1 = delete_op(s, key).0;
    lemma_without(s.cluster.rows, key);
    assert(fact_rows(matching(s1.cluster.rows, key)) =~= Seq::empty());
}

/// Removing a key that no fact has succeeds and changes nothing.
pub proof fn law_delete_absent(s: StoreView, key: u128)
    requires
        ready(s),
        !holds(s.cluster.rows, key),
    ensures
        delete_op(s, key) == (s, Ok::<(), StoreErrorView>(())),
{
}

/// Removing a key twice is the same as removing it once: the second
/// removal succeeds and changes nothing.
pub proof fn law_delete_idempotent(s: StoreView, key: u128)
    requires
        store_wf(s),
        ready(s),
    ensures
        delete_op(s, key).1 == Ok::<(), StoreErrorView>(()),
        delete_op(delete_op(s, key).0, key) == (delete_op(s, key).0, Ok::<(), StoreErrorView>(())),
{
    lemma_without(s.cluster.rows, key);
}

/// Neither an update nor a removal ever changes the key of a fact that
/// stays: every fact that can be read is read under the key that was
/// asked for.
pub proof fn law_read_returns_asked_key(s: StoreView, key: u128)
    requires
        store_wf(s),
        read_op(s, key).1 is Ok,
    ensures
        read_op(s, key).1->Ok_0.key == key,
        holds(s.cluster.rows, key),
{
    let found = matching(s.cluster.rows, key);
    if holds(s.cluster.rows, key) {
        assert(fact_rows(found)[0] == row_of_fact(found[0]));
        lemma_row_round_trip(found[0]);
    } else {
        assert(fact_rows(found) =~= Seq::empty());
    }
}

/// Where statements reach the table, creating a fact succeeds as long
/// as a key is left, and returns the first value from the start of the
/// search on that was not seen in use; updating and removing always
/// succeed.
pub proof fn law_writes_succeed(
    s: StoreView,
    key: u128,
    fact: Seq<char>,
    kind: Seq<char>,
    now: u64,
)
    requires
        ready(s),
    ensures
        next_value(s.ctx.last_key, s.ctx.seen, now) <= u128::MAX ==> create_op(s, fact, kind, now).1 == Ok::<
            u128,
            StoreErrorView,
        >(next_value(s.ctx.last_key, s.ctx.seen, now) as u128),
        update_op(s, key, fact, kind).1 == Ok::<(), StoreErrorView>(()),
        delete_op(s, key).1 == Ok::<(), StoreErrorView>(()),
{
}

/// Creating a fact succeeds wherever statements reach the table and some
/// value from the start of the search on (the start of the tick, or
/// right after the last key issued where that lies higher) was not seen
/// in use. The new key is the first such value, so it lies at or below
/// any of them. However large the keys that were seen, they hold back
/// themselves alone.
pub proof fn law_create_is_owed(
    s: StoreView,
    fact: Seq<char>,
    kind: Seq<char>,
    now: u64,
    free: u128,
)
    requires
        ready(s),
        start_value(s.ctx.last_key, now) <= free,
        !s.ctx.seen.contains(free),
    ensures
        create_op(s, fact, kind, now).1 is Ok,
        start_value(s.ctx.last_key, now) <= create_op(s, fact, kind, now).1->Ok_0 <= free,
{
    lemma_free_from(s.ctx.seen, start_value(s.ctx.last_key, now));
}

/// Creating a fact succeeds wherever statements reach the table and the
/// values from the start of the search up to the largest key are more
/// than the keys that were seen.
pub proof fn law_create_succeeds_with_room(
    s: StoreView,
    fact: Seq<char>,
    kind: Seq<char>,
    now: u64,
)
    requires
        ready(s),
        start_value(s.ctx.last_key, now) + s.ctx.seen.len() <= u128::MAX,
    ensures
        create_op(s, fact, kind, now).1 is Ok,
        create_op(s, fact, kind, now).1->Ok_0 <= start_value(s.ctx.last_key, now)
            + s.ctx.seen.len(),
{
    lemma_free_from(s.ctx.seen, start_value(s.ctx.last_key, now));
    lemma_free_within(s.ctx.seen, start_value(s.ctx.last_key, now));
}

/// Where statements reach the table, creating a fact fails only at the
/// end of the key space: every value from the start of the search up to
/// the largest key was seen in use, or the largest key was issued.
pub proof fn law_keys_exhausted_only_at_the_end(
    s: StoreView,
    fact: Seq<char>,
    kind: Seq<char>,
    now: u64,
)
    requires
        ready(s),
        create_op(s, fact, kind, now).1 is Err,
    ensures
        create_op(s, fact, kind, now).1->Err_0 matches StoreErrorView::Query { cause, .. } && cause
            == Cause::KeysExhausted,
        forall|v: u128|
            start_value(s.ctx.last_key, now) <= v ==> s.ctx.seen.contains(v),
        s.ctx.seen.len() > u128::MAX - start_value(s.ctx.last_key, now),
{
    lemma_free_from(s.ctx.seen, start_value(s.ctx.last_key, now));
    if start_value(s.ctx.last_key, now) + s.ctx.seen.len() <= u128::MAX {
        lemma_free_within(s.ctx.seen, start_value(s.ctx.last_key, now));
    }
}

/// Without a session that stands nothing is sent: every operation fails
/// with a connection error and changes nothing, so a session that was
/// lost is never taken up again.
pub proof fn law_no_session_no_operation(s: StoreView, key: u128)
    requires
        s.ctx.link != Link::Connected,
    ensures
        read_op(s, key) == (s, Err::<FactView, StoreErrorView>(StoreErrorView::Connection)),
        delete_op(s, key) == (s, Err::<(), StoreErrorView>(StoreErrorView::Connection)),
        list_op(s) == (s, Err::<Seq<u128>, StoreErrorView>(StoreErrorView::Connection)),
{
}

/// Whether `rows` is `before` with the first `n` texts of `corpus`
/// behind it, in their order, each with the tag of the examples.
pub open spec fn adds_corpus(
    rows: Seq<FactView>,
    before: Seq<FactView>,
    corpus: Seq<Seq<char>>,
    n: nat,
) -> bool {
    &&& rows.len() == before.len() + n
    &&& n <= corpus.len()
    &&& forall|i: int| 0 <= i < before.len() ==> (#[trigger] rows[i]) == before[i]
    &&& forall|i: int|
        0 <= i < n ==> (#[trigger] rows[before.len() + i]).fact == corpus[i] && rows[before.len()
            + i].kind == SEED_KIND@
}

/// Seeding adds one row for each example and changes no other: after the
/// first `n` examples the table is what it was with those `n` facts
/// behind the others, in their order.
pub proof fn law_seeding_adds_corpus(s: StoreView, corpus: Seq<Seq<char>>, now: u64, n: nat)
    requires
        store_wf(s),
        n <= corpus.len(),
        seed_op(s, corpus, now, n).1 is Ok,
    ensures
        ({
            let s1 = seed_op(s, corpus, now, n).0;
            &&& adds_corpus(s1.cluster.rows, s.cluster.rows, corpus, n)
            &&& store_wf(s1)
            &&& s1.cluster.online == s.cluster.online
            &&& s1.cluster.keyspace == s.cluster.keyspace
            &&& s1.cluster.table == s.cluster.table
            &&& s1.ctx.link == s.ctx.link
            &&& s1.ctx.policy == s.ctx.policy
            &&& n > 0 ==> ready(s1)
        }),
    decreases n,
{
    if n > 0 {
        law_seeding_adds_corpus(s, corpus, now, (n - 1) as nat);
        let s1 = seed_op(s, corpus, now, (n - 1) as nat).0;
        let (s2, r2) = create_op(s1, corpus[n - 1], SEED_KIND@, now);
        lemma_create_keeps_wf(s1, corpus[n - 1], SEED_KIND@, now);
        let before = s.cluster.rows;
        assert forall|i: int| 0 <= i < before.len() implies (#[trigger] s2.cluster.rows[i])
            == before[i] by {
            assert(s2.cluster.rows[i] == s1.cluster.rows[i]);
        }
        assert forall|i: int| 0 <= i < n implies (#[trigger] s2.cluster.rows[before.len() + i]).fact
            == corpus[i] && s2.cluster.rows[before.len() + i].kind == SEED_KIND@ by {
            if i < n - 1 {
                assert(s2.cluster.rows[before.len() + i] == s1.cluster.rows[before.len() + i]);
            }
        }
    }
}

/// How many values the search for `n` keys needs at most: each key may
/// have to pass over every key that was seen.
pub open spec fn room_for(seen: Seq<u128>, n: nat) -> int {
    (n * (seen.len() + 1)) as int
}

/// Seeding succeeds wherever statements reach the table and the key
/// space has room: the values from the start of the search up to the
/// largest key are at least as many as the examples may need.
pub proof fn law_seeding_succeeds_with_room(
    s: StoreView,
    corpus: Seq<Seq<char>>,
    now: u64,
    n: nat,
)
    requires
        store_wf(s),
        ready(s),
        n <= corpus.len(),
        start_value(s.ctx.last_key, now) + room_for(s.ctx.seen, n) <= u128::MAX + 1,
    ensures
        seed_op(s, corpus, now, n).1 is Ok,
        seed_op(s, corpus, now, n).0.ctx.seen == s.ctx.seen,
        start_value(seed_op(s, corpus, now, n).0.ctx.last_key, now) <= start_value(
            s.ctx.last_key,
            now,
        ) + room_for(s.ctx.seen, n),
    decreases n,
{
    if n > 0 {
        let m = (n - 1) as nat;
        assert(room_for(s.ctx.seen, n) == room_for(s.ctx.seen, m) + s.ctx.seen.len() + 1)
            by (nonlinear_arith)
            requires
                n == m + 1,
                room_for(s.ctx.seen, n) == n * (s.ctx.seen.len() + 1),
                room_for(s.ctx.seen, m) == m * (s.ctx.seen.len() + 1),
        ;
        law_seeding_succeeds_with_room(s, corpus, now, m);
        law_seeding_adds_corpus(s, corpus, now, m);
        let s1 = seed_op(s, corpus, now, m).0;
        law_create_succeeds_with_room(s1, corpus[n - 1], SEED_KIND@, now);
    }
}

/// The migrations succeed on a cluster that answers, with a session that
/// stands, wherever the key space has room for the examples. That holds
/// for a first run and for every run after it, whatever keys the table
/// held and however large the keys that were seen.
pub proof fn law_migrations_succeed_with_room(s: StoreView, corpus: Seq<Seq<char>>, now: u64)
    requires
        store_wf(s),
        s.ctx.link == Link::Connected,
        s.cluster.online,
        start_value(s.ctx.last_key, now) + room_for(s.ctx.seen, corpus.len()) <= u128::MAX + 1,
    ensures
        migrate_op(s, corpus, now).1 is Ok,
{
    let s1 = keyspace_op(s).0;
    lemma_schema_keeps_wf(s);
    let s2 = table_op(s1).0;
    lemma_schema_keeps_wf(s1);
    let s3 = reset_op(s2).0;
    lemma_schema_keeps_wf(s2);
    law_seeding_succeeds_with_room(s3, corpus, now, corpus.len());
}

/// Migrations that succeed leave the session standing, the cluster with
/// keyspace and table, and in the table the examples in their order and
/// nothing else: as many facts as there are examples, whatever the table
/// held before.
pub proof fn law_migrations_seed_corpus(s: StoreView, corpus: Seq<Seq<char>>, now: u64)
    requires
        store_wf(s),
        migrate_op(s, corpus, now).1 is Ok,
    ensures
        ({
            let s1 = migrate_op(s, corpus, now).0;
            &&& adds_corpus(s1.cluster.rows, Seq::empty(), corpus, corpus.len())
            &&& s1.cluster.rows.len() == corpus.len()
            &&& ready(s1)
            &&& s1.cluster.keyspace
            &&& store_wf(s1)
            &&& s1.ctx.policy == s.ctx.policy
        }),
{
    let s1 = keyspace_op(s).0;
    lemma_schema_keeps_wf(s);
    let s2 = table_op(s1).0;
    lemma_schema_keeps_wf(s1);
    let s3 = reset_op(s2).0;
    lemma_schema_keeps_wf(s2);
    assert(s3.cluster.rows =~= Seq::empty());
    law_seeding_adds_corpus(s3, corpus, now, corpus.len());
}

/// Migrations that run again after they succeeded do not fail on the
/// keyspace or on the table: both statements are accepted where keyspace
/// and table are there already.
pub proof fn law_migrations_repeatable(s: StoreView, corpus: Seq<Seq<char>>, now: u64)
    requires
        store_wf(s),
        migrate_op(s, corpus, now).1 is Ok,
    ensures
        ({
            let s1 = migrate_op(s, corpus, now).0;
            &&& keyspace_op(s1).1 is Ok
            &&& table_op(keyspace_op(s1).0).1 is Ok
            &&& reset_op(table_op(keyspace_op(s1).0).0).1 is Ok
        }),
{
    law_migrations_seed_corpus(s, corpus, now);
}

/// Each run of the migrations that succeeds seeds the same facts: after
/// a second run the table holds the examples once, as after the first.
pub proof fn law_migrations_twice(s: StoreView, corpus: Seq<Seq<char>>, now: u64, later: u64)
    requires
        store_wf(s),
        migrate_op(s, corpus, now).1 is Ok,
        migrate_op(migrate_op(s, corpus, now).0, corpus, later).1 is Ok,
    ensures
        ({
            let s1 = migrate_op(s, corpus, now).0;
            let s2 = migrate_op(s1, corpus, later).0;
            &&& adds_corpus(s1.cluster.rows, Seq::empty(), corpus, corpus.len())
            &&& adds_corpus(s2.cluster.rows, Seq::empty(), corpus, corpus.len())
            &&& s2.cluster.rows.len() == s1.cluster.rows.len()
        }),
{
    law_migrations_seed_corpus(s, corpus, now);
    law_migrations_seed_corpus(migrate_op(s, corpus, now).0, corpus, later);
}

/// Seeding a table that statements reach can fail for one reason only:
/// that no key is left for an example.
pub proof fn lemma_seed_failure(s: StoreView, corpus: Seq<Seq<char>>, now: u64, n: nat)
    requires
        store_wf(s),
        ready(s),
        n <= corpus.len(),
        seed_op(s, corpus, now, n).1 is Err,
    ensures
        seed_op(s, corpus, now, n).1->Err_0 matches StoreErrorView::Query { cause, .. } && cause
            == Cause::KeysExhausted,
    decreases n,
{
    if n > 0 {
        let (s1, r1) = seed_op(s, corpus, now, (n - 1) as nat);
        if r1 is Err {
            lemma_seed_failure(s, corpus, now, (n - 1) as nat);
        } else {
            law_seeding_adds_corpus(s, corpus, now, (n - 1) as nat);
        }
    }
}

/// The second run of the migrations can fail for one reason only: that
/// no key is left for an example.
pub proof fn law_second_migration_failure(
    s: StoreView,
    corpus: Seq<Seq<char>>,
    now: u64,
    later: u64,
)
    requires
        store_wf(s),
        migrate_op(s, corpus, now).1 is Ok,
        migrate_op(migrate_op(s, corpus, now).0, corpus, later).1 is Err,
    ensures
        migrate_op(migrate_op(s, corpus, now).0, corpus, later).1->Err_0 matches StoreErrorView::Query {
            cause,
            ..
        } && cause == Cause::KeysExhausted,
{
    law_migrations_seed_corpus(s, corpus, now);
    let s1 = migrate_op(s, corpus, now).0;
    lemma_schema_keeps_wf(s1);
    let s2 = keyspace_op(s1).0;
    lemma_schema_keeps_wf(s2);
    let s3 = table_op(s2).0;
    lemma_schema_keeps_wf(s3);
    let s4 = reset_op(s3).0;
    lemma_seed_failure(s4, corpus, later, corpus.len());
}

} // verus!
