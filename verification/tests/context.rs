use hello4000::error::{Cause, Intent, Operation, StoreError};
use hello4000::facts::Link;
use hello4000::key::{Key, KeyGenerator, TICK_SPAN};
use hello4000::level::{ConsistencyPolicy, Level};
use hello4000::outcome::{Failure, Outcome};
use hello4000::random::{nothing_chosen, random_fact, random_fact_with};
use hello4000::row::Row;
use hello4000::statement::Statement;
use hello4000::FactsContext;

#[test]
fn no_session_no_context() {
    assert_eq!(FactsContext::new(false).unwrap_err(), StoreError::Connection);
}

#[test]
fn a_new_context_is_connected_with_the_default_policy() {
    let ctx = FactsContext::new(true).unwrap();
    assert_eq!(ctx.link(), Link::Connected);
    assert_eq!(ctx.read_consistency(), Level::One);
    assert_eq!(ctx.write_consistency(), Level::LocalQuorum);
    assert_eq!(ctx.policy().get_replica_count(), 2);
}

#[test]
fn reads_use_the_read_level_and_writes_the_write_level() {
    let mut ctx = FactsContext::connected();
    ctx.set_read_consistency(Level::Two);
    ctx.set_write_consistency(Level::All);
    let key = Key::from_u128(1);
    assert_eq!(ctx.get_keys().unwrap(), Statement::list_keys(Level::Two));
    assert_eq!(ctx.read_fact(key).unwrap(), Statement::read(key, Level::Two));
    assert_eq!(ctx.update_fact("f", "k", key).unwrap(), Statement::update(key, "f", "k", Level::All));
    assert_eq!(ctx.delete_fact(key).unwrap(), Statement::delete(key, Level::All));
    assert_eq!(ctx.create_table().unwrap(), Statement::create_table(Level::All));
    assert_eq!(ctx.create_keyspace().unwrap(), Statement::create_keyspace(2, Level::All));
    let (k, s) = ctx.create_fact("f", "k", 1).unwrap();
    assert_eq!(s, Statement::create(k, "f", "k", Level::All));
}

#[test]
fn a_changed_level_holds_for_later_statements_only() {
    let mut ctx = FactsContext::connected();
    let before = ctx.read_fact(Key::from_u128(1)).unwrap();
    ctx.set_read_consistency(Level::Quorum);
    let after = ctx.read_fact(Key::from_u128(1)).unwrap();
    assert_eq!(before.consistency, Level::One);
    assert_eq!(after.consistency, Level::Quorum);
    assert_eq!(ctx.write_consistency(), Level::LocalQuorum);
}

#[test]
fn the_reset_always_runs_at_level_one() {
    let mut ctx = FactsContext::connected();
    ctx.set_read_consistency(Level::All);
    ctx.set_write_consistency(Level::All);
    let s = ctx.reset_data().unwrap();
    assert_eq!(s.consistency, Level::One);
    assert_eq!(s.text, "TRUNCATE pfacts.facts;");
    assert_eq!(s.intent, Intent::bare(Operation::ResetData));
}

#[test]
fn statement_texts() {
    let mut ctx = FactsContext::connected();
    let key = Key::from_u128(1);
    assert_eq!(ctx.get_keys().unwrap().text, "SELECT key FROM pfacts.facts;");
    assert_eq!(ctx.read_fact(key).unwrap().text, "SELECT * from pfacts.facts WHERE key = ?;");
    assert_eq!(
        ctx.update_fact("f", "k", key).unwrap().text,
        "UPDATE pfacts.facts SET fact = ?, kind = ? WHERE key = ?;"
    );
    assert_eq!(ctx.delete_fact(key).unwrap().text, "DELETE FROM pfacts.facts WHERE key = ?;");
    assert_eq!(
        ctx.create_table().unwrap().text,
        "CREATE TABLE IF NOT EXISTS pfacts.facts (key uuid PRIMARY KEY, fact varchar, kind varchar);"
    );
    assert_eq!(
        Statement::create(key, "f", "k", Level::One).text,
        "INSERT INTO pfacts.facts (key, fact, kind) VALUES (?, ?, ?);"
    );
    assert_eq!(
        Statement::create_keyspace(13, Level::One).text,
        "CREATE KEYSPACE IF NOT EXISTS pfacts WITH REPLICATION = {'class' : 'NetworkTopologyStrategy', 'datacenter1' : 13};"
    );
}

#[test]
fn created_facts_get_rising_keys() {
    let mut ctx = FactsContext::connected();
    let (a, sa) = ctx.create_fact("one", "k", 4).unwrap();
    let (b, _) = ctx.create_fact("two", "k", 4).unwrap();
    let (c, _) = ctx.create_fact("three", "k", 2).unwrap();
    assert_eq!(a.as_u128(), 4 * TICK_SPAN);
    assert_eq!(b.as_u128(), 4 * TICK_SPAN + 1);
    assert_eq!(c.as_u128(), 4 * TICK_SPAN + 2);
    assert_eq!(sa.intent, Intent::full(Operation::Create, a, "one", "k"));
}

#[test]
fn an_exhausted_key_space_is_a_query_error() {
    let keys = KeyGenerator { last: Some(u128::MAX - 1), seen: vec![u128::MAX] };
    let mut ctx = FactsContext::with_keys(keys);
    let e = ctx.create_fact("f", "k", 0).unwrap_err();
    assert_eq!(
        e,
        StoreError::Query {
            intent: Intent {
                operation: Operation::Create,
                key: None,
                fact: Some("f".to_string()),
                kind: Some("k".to_string()),
            },
            cause: Cause::KeysExhausted,
        }
    );
    assert!(ctx.read_fact(Key::from_u128(1)).is_ok());
}

#[test]
fn a_lost_session_fails_every_later_operation() {
    let mut ctx = FactsContext::connected();
    let key = Key::from_u128(1);
    let r = ctx.read_fact_reply(key, &Outcome::Failed(Failure::Disconnected));
    assert_eq!(r, Err(StoreError::Connection));
    assert_eq!(ctx.link(), Link::Failed);
    assert_eq!(ctx.get_keys(), Err(StoreError::Connection));
    assert_eq!(ctx.read_fact(key), Err(StoreError::Connection));
    assert_eq!(ctx.update_fact("f", "k", key), Err(StoreError::Connection));
    assert_eq!(ctx.delete_fact(key), Err(StoreError::Connection));
    assert_eq!(ctx.create_keyspace(), Err(StoreError::Connection));
    assert_eq!(ctx.create_table(), Err(StoreError::Connection));
    assert_eq!(ctx.reset_data(), Err(StoreError::Connection));
    assert_eq!(ctx.create_fact("f", "k", 1).unwrap_err(), StoreError::Connection);
    // a later answer does not bring the session back
    ctx.observe(&Outcome::Done);
    assert_eq!(ctx.link(), Link::Failed);
}

#[test]
fn other_failures_leave_the_session_standing() {
    let mut ctx = FactsContext::connected();
    let intent = Intent::keyed(Operation::Delete, Key::from_u128(2));
    for f in [Failure::Rejected, Failure::TimedOut, Failure::Network, Failure::BadFrame] {
        assert!(ctx.write_reply(intent.clone(), &Outcome::Failed(f)).is_err());
        assert_eq!(ctx.link(), Link::Connected);
    }
    assert_eq!(ctx.write_reply(intent, &Outcome::Done), Ok(()));
}

#[test]
fn replies_are_read_by_the_context() {
    let mut ctx = FactsContext::connected();
    let rows = vec![Row::from_key(Key::from_u128(3)), Row::from_key(Key::from_u128(1))];
    assert_eq!(
        ctx.get_keys_reply(&Outcome::Rows(rows)),
        Ok(vec![Key::from_u128(3), Key::from_u128(1)])
    );
    assert_eq!(
        ctx.read_fact_reply(Key::from_u128(9), &Outcome::Rows(vec![])),
        Err(StoreError::NotFound { key: Key::from_u128(9) })
    );
}

#[test]
fn a_failed_key_request_does_not_use_up_a_key() {
    let mut ctx = FactsContext::connected();
    ctx.observe(&Outcome::Failed(Failure::Disconnected));
    assert!(ctx.create_fact("f", "k", 1).is_err());
    let mut fresh = FactsContext::connected();
    let (k, _) = fresh.create_fact("f", "k", 1).unwrap();
    assert_eq!(k.as_u128(), TICK_SPAN);
}

#[test]
fn nothing_to_choose_from() {
    let ctx = FactsContext::connected();
    let expected =
        StoreError::Query { intent: Intent::bare(Operation::Read), cause: Cause::NothingToChoose };
    assert_eq!(random_fact(&ctx, &vec![]), Err(expected.clone()));
    assert_eq!(random_fact_with(&ctx, None), Err(expected.clone()));
    assert_eq!(nothing_chosen(&ctx), expected);
}

#[test]
fn the_chosen_key_is_read() {
    let ctx = FactsContext::connected();
    let key = Key::from_u128(42);
    assert_eq!(random_fact_with(&ctx, Some(key)), Ok(Statement::read(key, Level::One)));
}

#[test]
fn a_random_choice_is_one_of_the_keys() {
    let ctx = FactsContext::connected();
    let keys = vec![Key::from_u128(10), Key::from_u128(20), Key::from_u128(30)];
    let mut seen = [false; 3];
    for _ in 0..400 {
        let s = random_fact(&ctx, &keys).unwrap();
        let k = s.intent.key.unwrap();
        let i = keys.iter().position(|x| *x == k).unwrap();
        seen[i] = true;
        assert_eq!(s, Statement::read(k, Level::One));
    }
    assert!(seen[0] && seen[1] && seen[2]);
    let one = vec![Key::from_u128(7)];
    assert_eq!(random_fact(&ctx, &one), Ok(Statement::read(Key::from_u128(7), Level::One)));
}

#[test]
fn without_a_session_nothing_is_chosen() {
    let mut ctx = FactsContext::connected();
    ctx.observe(&Outcome::Failed(Failure::Disconnected));
    assert_eq!(random_fact(&ctx, &vec![Key::from_u128(1)]), Err(StoreError::Connection));
    assert_eq!(random_fact(&ctx, &vec![]), Err(StoreError::Connection));
    assert_eq!(random_fact_with(&ctx, None), Err(StoreError::Connection));
}

#[test]
fn a_context_takes_the_policy_it_is_given() {
    let ctx = FactsContext::with_policy(ConsistencyPolicy::with_replicas(3));
    assert_eq!(ctx.policy().get_replica_count(), 3);
    assert_eq!(ctx.read_consistency(), Level::One);
    assert_eq!(ctx.write_consistency(), Level::LocalQuorum);
    assert_eq!(ctx.create_keyspace().unwrap(), Statement::create_keyspace(3, Level::LocalQuorum));
    assert_eq!(ctx.link(), Link::Connected);
}

#[test]
fn an_update_makes_its_key_count_as_seen() {
    let mut ctx = FactsContext::connected();
    ctx.update_fact("f", "k", Key::from_u128(6 * TICK_SPAN + 1)).unwrap();
    ctx.update_fact("f", "k", Key::from_u128(6 * TICK_SPAN + 2)).unwrap();
    ctx.update_fact("f", "k", Key::from_u128(1)).unwrap();
    let (k, _) = ctx.create_fact("f", "k", 6).unwrap();
    assert_eq!(k.as_u128(), 6 * TICK_SPAN);
    let (k, _) = ctx.create_fact("f", "k", 6).unwrap();
    assert_eq!(k.as_u128(), 6 * TICK_SPAN + 3);
    let (k, _) = ctx.create_fact("f", "k", 0).unwrap();
    assert_eq!(k.as_u128(), 6 * TICK_SPAN + 4);
}

#[test]
fn listed_keys_count_as_seen() {
    let mut ctx = FactsContext::connected();
    let rows = vec![
        Row::from_key(Key::from_u128(2 * TICK_SPAN + 4)),
        Row::from_key(Key::from_u128(8 * TICK_SPAN)),
        Row::from_key(Key::from_u128(5)),
    ];
    ctx.get_keys_reply(&Outcome::Rows(rows)).unwrap();
    let (k, _) = ctx.create_fact("f", "k", 8).unwrap();
    assert_eq!(k.as_u128(), 8 * TICK_SPAN + 1);
    let (k, _) = ctx.create_fact("f", "k", 9).unwrap();
    assert_eq!(k.as_u128(), 9 * TICK_SPAN);
}

#[test]
fn a_listing_that_cannot_be_read_counts_no_key_as_seen() {
    let mut ctx = FactsContext::connected();
    let rows = vec![
        Row::from_key(Key::from_u128(8 * TICK_SPAN)),
        Row { key: hello4000::row::Cell::Null, fact: hello4000::row::Cell::Missing, kind: hello4000::row::Cell::Missing },
    ];
    assert!(ctx.get_keys_reply(&Outcome::Rows(rows)).is_err());
    let (k, _) = ctx.create_fact("f", "k", 8).unwrap();
    assert_eq!(k.as_u128(), 8 * TICK_SPAN);
}

#[test]
fn the_key_of_a_fact_that_was_read_counts_as_seen() {
    let mut ctx = FactsContext::connected();
    let key = Key::from_u128(3 * TICK_SPAN + 2);
    let row = Row::from_fact(&hello4000::Fact::new(key, "f", "k"));
    ctx.read_fact_reply(key, &Outcome::Rows(vec![row])).unwrap();
    let (k, _) = ctx.create_fact("f", "k", 3).unwrap();
    assert_eq!(k.as_u128(), 3 * TICK_SPAN);
    let (k, _) = ctx.create_fact("f", "k", 3).unwrap();
    assert_eq!(k.as_u128(), 3 * TICK_SPAN + 1);
    let (k, _) = ctx.create_fact("f", "k", 3).unwrap();
    assert_eq!(k.as_u128(), 3 * TICK_SPAN + 3);
}

#[test]
fn an_update_without_a_session_changes_nothing() {
    let mut ctx = FactsContext::connected();
    ctx.observe(&Outcome::Failed(Failure::Disconnected));
    assert_eq!(ctx.update_fact("f", "k", Key::from_u128(u128::MAX)), Err(StoreError::Connection));
}

#[test]
fn an_update_of_the_largest_key_holds_back_no_other_key() {
    let mut ctx = FactsContext::connected();
    ctx.update_fact("f", "k", Key::from_u128(u128::MAX)).unwrap();
    let (k, _) = ctx.create_fact("f", "k", 0).unwrap();
    assert_eq!(k.as_u128(), 0);
    let (k, _) = ctx.create_fact("f", "k", 5).unwrap();
    assert_eq!(k.as_u128(), 5 * TICK_SPAN);
    let (k, _) = ctx.create_fact("f", "k", u64::MAX).unwrap();
    assert_eq!(k.as_u128(), u128::MAX - (TICK_SPAN - 1));
}

#[test]
fn a_listing_with_the_largest_key_holds_back_no_other_key() {
    let mut ctx = FactsContext::connected();
    let rows = vec![Row::from_key(Key::from_u128(u128::MAX)), Row::from_key(Key::from_u128(0))];
    ctx.get_keys_reply(&Outcome::Rows(rows)).unwrap();
    let (k, _) = ctx.create_fact("f", "k", 0).unwrap();
    assert_eq!(k.as_u128(), 1);
}

#[test]
fn a_context_takes_up_the_keys_of_an_earlier_one() {
    let keys = KeyGenerator { last: Some(10 * TICK_SPAN + 5), seen: vec![10 * TICK_SPAN + 6] };
    let mut ctx = FactsContext::with_keys(keys);
    let (k, _) = ctx.create_fact("f", "k", 3).unwrap();
    assert_eq!(k.as_u128(), 10 * TICK_SPAN + 7);
    let (k, _) = ctx.create_fact("f", "k", 11).unwrap();
    assert_eq!(k.as_u128(), 11 * TICK_SPAN);
    assert_eq!(ctx.link(), Link::Connected);
}
