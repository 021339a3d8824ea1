use hello4000::error::{Cause, Intent, Operation, StoreError};
use hello4000::fact::Fact;
use hello4000::facts::Link;
use hello4000::key::{Key, TICK_SPAN};
use hello4000::level::Level;
use hello4000::memory::MemoryCluster;
use hello4000::outcome::{Failure, Outcome};
use hello4000::row::Row;
use hello4000::statement::Statement;
use hello4000::store::LocalStore;

fn ready_store() -> LocalStore {
    let mut store = LocalStore::new();
    store.create_keyspace().unwrap();
    store.create_table().unwrap();
    store
}

#[test]
fn cat_fact_scenario() {
    let mut store = ready_store();
    let k = store.create("Cats have 230 bones.", "Cat fact", 1).unwrap();
    let f = store.read(k).unwrap();
    assert_eq!(f.fact, "Cats have 230 bones.");
    assert_eq!(f.kind, "Cat fact");
    assert_eq!(f.key(), k);
    assert!(store.list_keys().unwrap().contains(&k));
    store.delete(k).unwrap();
    assert_eq!(store.read(k), Err(StoreError::NotFound { key: k }));
    assert!(!store.list_keys().unwrap().contains(&k));
}

#[test]
fn read_after_create_returns_what_was_created() {
    let mut store = ready_store();
    let a = store.create("", "", 0).unwrap();
    let b = store.create("Printers hate you.", "Printer fact", 0).unwrap();
    assert_eq!(store.read(a), Ok(Fact::new(a, "", "")));
    assert_eq!(store.read(b), Ok(Fact::new(b, "Printers hate you.", "Printer fact")));
    assert_ne!(a, b);
}

#[test]
fn create_adds_one_key_and_delete_takes_one_away() {
    let mut store = ready_store();
    let a = store.create("a", "k", 1).unwrap();
    let b = store.create("b", "k", 1).unwrap();
    assert_eq!(store.list_keys().unwrap(), vec![a, b]);
    let c = store.create("c", "k", 2).unwrap();
    assert_eq!(store.list_keys().unwrap(), vec![a, b, c]);
    assert_eq!(store.len(), 3);
    store.delete(b).unwrap();
    assert_eq!(store.list_keys().unwrap(), vec![a, c]);
    assert_eq!(store.len(), 2);
    assert_eq!(store.read(a), Ok(Fact::new(a, "a", "k")));
    assert_eq!(store.read(c), Ok(Fact::new(c, "c", "k")));
}

#[test]
fn update_replaces_text_and_tag_and_keeps_the_key() {
    let mut store = ready_store();
    let a = store.create("old", "old kind", 1).unwrap();
    let b = store.create("other", "kind", 1).unwrap();
    store.update(a, "new", "new kind").unwrap();
    assert_eq!(store.read(a), Ok(Fact::new(a, "new", "new kind")));
    assert_eq!(store.read(b), Ok(Fact::new(b, "other", "kind")));
    assert_eq!(store.list_keys().unwrap(), vec![a, b]);
}

#[test]
fn updating_an_absent_key_stores_a_fact_under_it() {
    let mut store = ready_store();
    let key = Key::from_u128(12345);
    assert_eq!(store.update(key, "f", "k"), Ok(()));
    assert_eq!(store.read(key), Ok(Fact::new(key, "f", "k")));
    assert_eq!(store.list_keys().unwrap(), vec![key]);
}

#[test]
fn a_key_that_an_update_stored_is_not_given_to_a_later_create() {
    let mut store = ready_store();
    let key = Key::from_u128(3 * TICK_SPAN);
    store.update(key, "from update", "k").unwrap();
    let created = store.create("from create", "k", 3).unwrap();
    assert_eq!(created, Key::from_u128(3 * TICK_SPAN + 1));
    assert_eq!(store.list_keys().unwrap(), vec![key, created]);
    assert_eq!(store.read(key), Ok(Fact::new(key, "from update", "k")));
    assert_eq!(store.read(created), Ok(Fact::new(created, "from create", "k")));
}

#[test]
fn a_create_after_an_update_of_key_zero_takes_another_key() {
    let mut store = ready_store();
    store.update(Key::from_u128(0), "old", "tag").unwrap();
    let created = store.create("new", "tag", 0).unwrap();
    assert_eq!(created, Key::from_u128(1));
    assert_eq!(store.len(), 2);
    assert_eq!(store.read(Key::from_u128(0)), Ok(Fact::new(Key::from_u128(0), "old", "tag")));
    assert_eq!(store.read(created), Ok(Fact::new(created, "new", "tag")));
}

#[test]
fn two_creates_with_equal_content_give_two_rows() {
    let mut store = ready_store();
    let before = store.list_keys().unwrap().len();
    let a = store.create("same", "tag", 5).unwrap();
    let b = store.create("same", "tag", 5).unwrap();
    assert!(a.as_u128() < b.as_u128());
    assert_eq!(store.list_keys().unwrap().len(), before + 2);
    assert_eq!(store.read(a), Ok(Fact::new(a, "same", "tag")));
    assert_eq!(store.read(b), Ok(Fact::new(b, "same", "tag")));
}

#[test]
fn every_create_grows_the_table_by_one_whatever_came_before() {
    let mut store = ready_store();
    store.update(Key::from_u128(7 * TICK_SPAN + 3), "u", "k").unwrap();
    store.update(Key::from_u128(2), "v", "k").unwrap();
    for now in [0u64, 7, 7, 3, 9] {
        let keys = store.list_keys().unwrap();
        let created = store.create("c", "k", now).unwrap();
        assert!(!keys.contains(&created));
        let mut expected = keys.clone();
        expected.push(created);
        assert_eq!(store.list_keys().unwrap(), expected);
        for k in keys {
            assert!(store.read(k).is_ok());
        }
    }
    assert_eq!(store.len(), 7);
}

#[test]
fn creation_succeeds_after_an_update_and_a_delete_of_the_largest_key() {
    let mut store = ready_store();
    let largest = Key::from_u128(u128::MAX);
    store.update(largest, "f", "k").unwrap();
    store.delete(largest).unwrap();
    assert_eq!(store.len(), 0);
    let k = store.create("Cats have 230 bones.", "Cat fact", 1).unwrap();
    assert_eq!(k, Key::from_u128(TICK_SPAN));
    assert_eq!(store.read(k), Ok(Fact::new(k, "Cats have 230 bones.", "Cat fact")));
    assert_eq!(store.len(), 1);
}

#[test]
fn creation_succeeds_while_the_largest_key_holds_a_fact() {
    let mut store = ready_store();
    let largest = Key::from_u128(u128::MAX);
    store.update(largest, "f", "k").unwrap();
    let k = store.create("c", "k", u64::MAX).unwrap();
    assert_eq!(k, Key::from_u128(u128::MAX - (TICK_SPAN - 1)));
    assert_eq!(store.list_keys().unwrap(), vec![largest, k]);
    assert_eq!(store.read(largest), Ok(Fact::new(largest, "f", "k")));
}

#[test]
fn seeding_a_table_that_holds_facts_adds_one_row_for_each_example() {
    let mut store = ready_store();
    let held = Key::from_u128(4 * TICK_SPAN);
    store.update(held, "held", "k").unwrap();
    for (i, text) in ["one", "two", "three"].iter().enumerate() {
        let k = store.create(text, "Cat fact", 4).unwrap();
        assert_eq!(k, Key::from_u128(4 * TICK_SPAN + 1 + i as u128));
    }
    assert_eq!(store.len(), 4);
    assert_eq!(store.read(held), Ok(Fact::new(held, "held", "k")));
}

#[test]
fn reading_an_absent_key_is_not_found() {
    let mut store = ready_store();
    let key = Key::from_u128(5);
    assert_eq!(store.read(key), Err(StoreError::NotFound { key }));
    let a = store.create("a", "k", 1).unwrap();
    assert_eq!(store.read(key), Err(StoreError::NotFound { key }));
    assert!(store.read(a).is_ok());
}

#[test]
fn deleting_an_absent_key_succeeds_again_and_again() {
    let mut store = ready_store();
    let a = store.create("a", "k", 1).unwrap();
    let absent = Key::from_u128(5);
    assert_eq!(store.delete(absent), Ok(()));
    assert_eq!(store.delete(absent), Ok(()));
    assert_eq!(store.list_keys().unwrap(), vec![a]);
    assert_eq!(store.delete(a), Ok(()));
    assert_eq!(store.delete(a), Ok(()));
    assert_eq!(store.list_keys().unwrap(), vec![]);
}

#[test]
fn without_a_table_statements_are_rejected() {
    let mut store = LocalStore::new();
    let key = Key::from_u128(1);
    assert_eq!(
        store.read(key),
        Err(StoreError::Query { intent: Intent::keyed(Operation::Read, key), cause: Cause::Rejected })
    );
    assert_eq!(
        store.list_keys(),
        Err(StoreError::Query { intent: Intent::bare(Operation::ListKeys), cause: Cause::Rejected })
    );
    assert_eq!(
        store.delete(key),
        Err(StoreError::Query { intent: Intent::keyed(Operation::Delete, key), cause: Cause::Rejected })
    );
    assert_eq!(
        store.update(key, "f", "k"),
        Err(StoreError::Query {
            intent: Intent::full(Operation::Update, key, "f", "k"),
            cause: Cause::Rejected,
        })
    );
    let e = store.create("f", "k", 1).unwrap_err();
    assert_eq!(
        e,
        StoreError::Query {
            intent: Intent::full(Operation::Create, Key::from_u128(TICK_SPAN), "f", "k"),
            cause: Cause::Rejected,
        }
    );
    assert_eq!(
        store.create_table(),
        Err(StoreError::Query { intent: Intent::bare(Operation::CreateTable), cause: Cause::Rejected })
    );
    assert_eq!(
        store.reset_data(),
        Err(StoreError::Query { intent: Intent::bare(Operation::ResetData), cause: Cause::Rejected })
    );
    assert_eq!(store.context().link(), Link::Connected);
}

#[test]
fn a_cluster_that_is_gone_fails_the_session_for_good() {
    let mut store = ready_store();
    let a = store.create("a", "k", 1).unwrap();
    store.set_online(false);
    assert_eq!(store.read(a), Err(StoreError::Connection));
    assert_eq!(store.context().link(), Link::Failed);
    store.set_online(true);
    assert_eq!(store.read(a), Err(StoreError::Connection));
    assert_eq!(store.list_keys(), Err(StoreError::Connection));
    assert_eq!(store.delete(a), Err(StoreError::Connection));
    assert_eq!(store.create("b", "k", 1), Err(StoreError::Connection));
    assert_eq!(store.random(), Err(StoreError::Connection));
    assert_eq!(store.len(), 1);
}

#[test]
fn a_random_fact_is_one_of_the_stored_facts() {
    let mut store = ready_store();
    let a = store.create("a", "k", 1).unwrap();
    let b = store.create("b", "k", 1).unwrap();
    let mut seen_a = false;
    let mut seen_b = false;
    for _ in 0..300 {
        let f = store.random().unwrap();
        if f.key() == a {
            assert_eq!(f, Fact::new(a, "a", "k"));
            seen_a = true;
        } else {
            assert_eq!(f, Fact::new(b, "b", "k"));
            seen_b = true;
        }
    }
    assert!(seen_a && seen_b);
}

#[test]
fn a_random_fact_of_an_empty_store_is_an_error() {
    let mut store = ready_store();
    assert_eq!(
        store.random(),
        Err(StoreError::Query { intent: Intent::bare(Operation::Read), cause: Cause::NothingToChoose })
    );
    assert_eq!(
        store.read_chosen(None),
        Err(StoreError::Query { intent: Intent::bare(Operation::Read), cause: Cause::NothingToChoose })
    );
}

#[test]
fn a_chosen_key_that_was_deleted_meanwhile_is_not_found() {
    let mut store = ready_store();
    let a = store.create("a", "k", 1).unwrap();
    let keys = store.list_keys().unwrap();
    store.delete(a).unwrap();
    assert_eq!(store.read_chosen(Some(keys[0])), Err(StoreError::NotFound { key: a }));
}

#[test]
fn levels_of_the_store_can_be_changed() {
    let mut store = ready_store();
    store.set_read_consistency(Level::Quorum);
    store.set_write_consistency(Level::Two);
    assert_eq!(store.context().read_consistency(), Level::Quorum);
    assert_eq!(store.context().write_consistency(), Level::Two);
    let a = store.create("a", "k", 1).unwrap();
    assert_eq!(store.read(a), Ok(Fact::new(a, "a", "k")));
}

#[test]
fn the_cluster_runs_statements() {
    let mut c = MemoryCluster::new();
    let key = Key::from_u128(9);
    assert_eq!(c.execute(&Statement::create_table(Level::One)), Outcome::Failed(Failure::Rejected));
    assert_eq!(c.execute(&Statement::create_keyspace(2, Level::One)), Outcome::Done);
    assert_eq!(c.execute(&Statement::create_table(Level::One)), Outcome::Done);
    assert_eq!(c.execute(&Statement::list_keys(Level::One)), Outcome::Rows(vec![]));
    assert_eq!(c.execute(&Statement::create(key, "f", "k", Level::One)), Outcome::Done);
    assert_eq!(c.execute(&Statement::list_keys(Level::One)), Outcome::Rows(vec![Row::from_key(key)]));
    assert_eq!(
        c.execute(&Statement::read(key, Level::One)),
        Outcome::Rows(vec![Row::from_fact(&Fact::new(key, "f", "k"))])
    );
    assert_eq!(c.execute(&Statement::read(Key::from_u128(1), Level::One)), Outcome::Rows(vec![]));
    assert_eq!(c.execute(&Statement::reset_data()), Outcome::Done);
    assert_eq!(c.len(), 0);
    c.set_online(false);
    assert_eq!(c.execute(&Statement::list_keys(Level::One)), Outcome::Failed(Failure::Disconnected));
}

#[test]
fn statements_without_their_values_are_rejected() {
    let mut c = MemoryCluster::new();
    c.execute(&Statement::create_keyspace(2, Level::One));
    c.execute(&Statement::create_table(Level::One));
    let no_key = Statement {
        intent: Intent::bare(Operation::Read),
        text: String::new(),
        consistency: Level::One,
    };
    assert_eq!(c.execute(&no_key), Outcome::Failed(Failure::Rejected));
    let no_fields = Statement {
        intent: Intent::keyed(Operation::Create, Key::from_u128(1)),
        text: String::new(),
        consistency: Level::One,
    };
    assert_eq!(c.execute(&no_fields), Outcome::Failed(Failure::Rejected));
    let no_key = Statement {
        intent: Intent::bare(Operation::Delete),
        text: String::new(),
        consistency: Level::One,
    };
    assert_eq!(c.execute(&no_key), Outcome::Failed(Failure::Rejected));
    assert_eq!(c.len(), 0);
}

#[test]
fn creating_schema_twice_keeps_the_facts() {
    let mut store = ready_store();
    let a = store.create("a", "k", 1).unwrap();
    assert_eq!(store.create_keyspace(), Ok(()));
    assert_eq!(store.create_table(), Ok(()));
    assert_eq!(store.read(a), Ok(Fact::new(a, "a", "k")));
    assert_eq!(store.reset_data(), Ok(()));
    assert_eq!(store.len(), 0);
}
