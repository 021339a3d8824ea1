use hello4000::error::{Cause, Column, Fault, Intent, Operation, StoreError};
use hello4000::fact::Fact;
use hello4000::key::Key;
use hello4000::level::Level;
use hello4000::outcome::{
    classify, collect_keys, conclude_keys, conclude_read, conclude_write, error_of_failure,
    Failure, Outcome, Trouble,
};
use hello4000::statement::Statement;
use hello4000::row::{Cell, Row};

fn text(s: &str) -> Cell {
    Cell::Text(s.to_string())
}

fn full_row(key: u128, fact: &str, kind: &str) -> Row {
    Row { key: Cell::Id(Key::from_u128(key)), fact: text(fact), kind: text(kind) }
}

#[test]
fn a_full_row_is_read_as_its_fact() {
    let f = full_row(3, "Cats have 230 bones.", "Cat fact").to_fact().unwrap();
    assert_eq!(f.key(), Key::from_u128(3));
    assert_eq!(f.fact, "Cats have 230 bones.");
    assert_eq!(f.kind, "Cat fact");
}

#[test]
fn row_of_a_fact_round_trips() {
    let f = Fact::new(Key::from_u128(11), "a", "b");
    let row = Row::from_fact(&f);
    assert_eq!(row, full_row(11, "a", "b"));
    assert_eq!(row.to_fact().unwrap(), f);
    assert_eq!(row.to_key().unwrap(), Key::from_u128(11));
    assert_eq!(f.clone(), f);
}

#[test]
fn a_key_row_holds_no_fact() {
    let row = Row::from_key(Key::from_u128(4));
    assert_eq!(row.to_key(), Ok(Key::from_u128(4)));
    assert_eq!(
        row.to_fact(),
        Err(Cause::Serialization { column: Column::Fact, fault: Fault::Missing })
    );
}

#[test]
fn the_first_faulty_column_is_reported() {
    let row = Row { key: Cell::Null, fact: Cell::Missing, kind: Cell::Id(Key::from_u128(1)) };
    assert_eq!(
        row.to_fact(),
        Err(Cause::Serialization { column: Column::Key, fault: Fault::Null })
    );
    let row = Row { key: Cell::Id(Key::from_u128(1)), fact: text("x"), kind: Cell::Id(Key::from_u128(1)) };
    assert_eq!(
        row.to_fact(),
        Err(Cause::Serialization { column: Column::Kind, fault: Fault::WrongType })
    );
    let row = Row { key: text("k"), fact: text("x"), kind: text("y") };
    assert_eq!(
        row.to_fact(),
        Err(Cause::Serialization { column: Column::Key, fault: Fault::WrongType })
    );
    assert_eq!(
        row.to_key(),
        Err(Cause::Serialization { column: Column::Key, fault: Fault::WrongType })
    );
    let row = Row { key: Cell::Id(Key::from_u128(1)), fact: Cell::Null, kind: Cell::Missing };
    assert_eq!(
        row.to_fact(),
        Err(Cause::Serialization { column: Column::Fact, fault: Fault::Null })
    );
}

#[test]
fn cells_are_read_by_type() {
    assert_eq!(Cell::Id(Key::from_u128(8)).to_id(Column::Key), Ok(Key::from_u128(8)));
    assert_eq!(text("t").to_text(Column::Kind), Ok("t".to_string()));
    assert_eq!(
        Cell::Missing.to_id(Column::Key),
        Err(Cause::Serialization { column: Column::Key, fault: Fault::Missing })
    );
    assert_eq!(
        Cell::Id(Key::from_u128(8)).to_text(Column::Fact),
        Err(Cause::Serialization { column: Column::Fact, fault: Fault::WrongType })
    );
    assert_eq!(text("t").clone(), text("t"));
}

#[test]
fn keys_are_collected_in_row_order() {
    let rows = vec![
        Row::from_key(Key::from_u128(5)),
        Row::from_key(Key::from_u128(2)),
        Row::from_key(Key::from_u128(9)),
    ];
    assert_eq!(
        collect_keys(&rows),
        Ok(vec![Key::from_u128(5), Key::from_u128(2), Key::from_u128(9)])
    );
    assert_eq!(collect_keys(&vec![]), Ok(vec![]));
}

#[test]
fn the_first_row_without_a_key_stops_the_collection() {
    let rows = vec![
        Row::from_key(Key::from_u128(5)),
        Row { key: Cell::Null, fact: Cell::Missing, kind: Cell::Missing },
        Row { key: text("x"), fact: Cell::Missing, kind: Cell::Missing },
    ];
    assert_eq!(
        collect_keys(&rows),
        Err(Cause::Serialization { column: Column::Key, fault: Fault::Null })
    );
}

#[test]
fn no_row_means_not_found() {
    let key = Key::from_u128(77);
    let r = conclude_read(key, &Outcome::Rows(vec![]));
    assert_eq!(r, Err(StoreError::NotFound { key }));
    assert!(r.unwrap_err().is_not_found());
}

#[test]
fn the_first_row_is_the_fact_that_was_read() {
    let key = Key::from_u128(1);
    let out = Outcome::Rows(vec![full_row(1, "first", "k"), full_row(2, "second", "k")]);
    let f = conclude_read(key, &out).unwrap();
    assert_eq!(f, Fact::new(key, "first", "k"));
}

#[test]
fn a_malformed_row_is_a_query_error() {
    let key = Key::from_u128(1);
    let out = Outcome::Rows(vec![Row::from_key(key)]);
    assert_eq!(
        conclude_read(key, &out),
        Err(StoreError::Query {
            intent: Intent::keyed(Operation::Read, key),
            cause: Cause::Serialization { column: Column::Fact, fault: Fault::Missing },
        })
    );
}

#[test]
fn an_answer_without_rows_is_a_query_error_for_reads() {
    let key = Key::from_u128(1);
    assert_eq!(
        conclude_read(key, &Outcome::Done),
        Err(StoreError::Query { intent: Intent::keyed(Operation::Read, key), cause: Cause::NotRows })
    );
    assert_eq!(
        conclude_keys(&Outcome::Done),
        Err(StoreError::Query { intent: Intent::bare(Operation::ListKeys), cause: Cause::NotRows })
    );
}

#[test]
fn each_failure_has_its_error() {
    let intent = Intent::keyed(Operation::Delete, Key::from_u128(6));
    assert_eq!(error_of_failure(intent.clone(), Failure::Disconnected), StoreError::Connection);
    assert_eq!(
        error_of_failure(intent.clone(), Failure::Rejected),
        StoreError::Query { intent: intent.clone(), cause: Cause::Rejected }
    );
    assert_eq!(
        error_of_failure(intent.clone(), Failure::TimedOut),
        StoreError::Query { intent: intent.clone(), cause: Cause::TimedOut }
    );
    assert_eq!(
        error_of_failure(intent.clone(), Failure::Network),
        StoreError::Query { intent: intent.clone(), cause: Cause::Network }
    );
    assert_eq!(
        error_of_failure(intent.clone(), Failure::BadFrame),
        StoreError::Query { intent: intent.clone(), cause: Cause::BadFrame }
    );
    assert!(!StoreError::Connection.is_not_found());
    assert_eq!(StoreError::Connection.clone(), StoreError::Connection);
}

#[test]
fn writes_succeed_on_any_answer() {
    let intent = Intent::full(Operation::Update, Key::from_u128(6), "f", "k");
    assert_eq!(conclude_write(intent.clone(), &Outcome::Done), Ok(()));
    assert_eq!(conclude_write(intent.clone(), &Outcome::Rows(vec![])), Ok(()));
    assert_eq!(
        conclude_write(intent.clone(), &Outcome::Failed(Failure::TimedOut)),
        Err(StoreError::Query { intent, cause: Cause::TimedOut })
    );
}

#[test]
fn listing_reports_failures_with_its_intent() {
    assert_eq!(
        conclude_keys(&Outcome::Failed(Failure::Network)),
        Err(StoreError::Query { intent: Intent::bare(Operation::ListKeys), cause: Cause::Network })
    );
    assert_eq!(conclude_keys(&Outcome::Failed(Failure::Disconnected)), Err(StoreError::Connection));
    let out = Outcome::Rows(vec![Row { key: Cell::Missing, fact: text("f"), kind: text("k") }]);
    assert_eq!(
        conclude_keys(&out),
        Err(StoreError::Query {
            intent: Intent::bare(Operation::ListKeys),
            cause: Cause::Serialization { column: Column::Key, fault: Fault::Missing },
        })
    );
}

#[test]
fn intents_hold_what_they_were_given() {
    let i = Intent::full(Operation::Create, Key::from_u128(1), "f", "k");
    assert_eq!(i.operation, Operation::Create);
    assert_eq!(i.key, Some(Key::from_u128(1)));
    assert_eq!(i.fact.as_deref(), Some("f"));
    assert_eq!(i.kind.as_deref(), Some("k"));
    let b = Intent::bare(Operation::ResetData);
    assert_eq!((b.key, b.fact, b.kind), (None, None, None));
}

#[test]
fn a_connection_that_is_gone_is_a_lost_session() {
    for t in [
        Trouble::NotConnected,
        Trouble::BrokenPipe,
        Trouble::ConnectionReset,
        Trouble::ConnectionAborted,
        Trouble::UnexpectedEof,
    ] {
        assert_eq!(classify(t), Failure::Disconnected);
    }
}

#[test]
fn other_troubles_leave_the_session() {
    assert_eq!(classify(Trouble::TimedOut), Failure::TimedOut);
    assert_eq!(classify(Trouble::WouldBlock), Failure::TimedOut);
    assert_eq!(classify(Trouble::OtherIo), Failure::Network);
    assert_eq!(classify(Trouble::Server), Failure::Rejected);
    assert_eq!(classify(Trouble::Undecodable), Failure::BadFrame);
}

#[test]
fn only_listings_and_reads_are_read_for_rows() {
    let key = Key::from_u128(1);
    assert!(Statement::list_keys(Level::One).expects_rows());
    assert!(Statement::read(key, Level::One).expects_rows());
    assert!(!Statement::create(key, "f", "k", Level::One).expects_rows());
    assert!(!Statement::update(key, "f", "k", Level::One).expects_rows());
    assert!(!Statement::delete(key, Level::One).expects_rows());
    assert!(!Statement::create_keyspace(2, Level::One).expects_rows());
    assert!(!Statement::create_table(Level::One).expects_rows());
    assert!(!Statement::reset_data().expects_rows());
}

#[test]
fn what_the_errors_say() {
    let key = Key::from_u128(1);
    let id = "00000000-0000-0000-0000-000000000001";
    assert_eq!(StoreError::Connection.message(), "Failed to connect to Cassandra");
    assert_eq!(StoreError::NotFound { key }.message(), format!("No such fact (read key={})", id));
    let q = |intent: Intent, cause: Cause| StoreError::Query { intent, cause }.message();
    assert_eq!(
        q(Intent::keyed(Operation::Read, key), Cause::Rejected),
        format!("Query failed (read key={})", id)
    );
    assert_eq!(
        q(Intent::keyed(Operation::Delete, key), Cause::TimedOut),
        format!("Query failed (delete key={})", id)
    );
    assert_eq!(
        q(Intent::full(Operation::Update, key, "f", "k \"q\""), Cause::Network),
        format!("Query failed (update key={} fact=\"f\" kind=\"k \\\"q\\\"\")", id)
    );
    assert_eq!(q(Intent::bare(Operation::ListKeys), Cause::Rejected), "Query failed (list keys)");
    assert_eq!(q(Intent::bare(Operation::ResetData), Cause::Rejected), "Query failed (reset data)");
    assert_eq!(
        q(Intent::bare(Operation::CreateKeyspace), Cause::Rejected),
        "Failed to create keyspace: Query failed (create keyspace)"
    );
    assert_eq!(
        q(Intent::bare(Operation::CreateTable), Cause::Network),
        "Failed to create table: Query failed (create table)"
    );
    assert_eq!(
        q(Intent::keyed(Operation::Read, key), Cause::BadFrame),
        format!("Get body failed (read key={})", id)
    );
    assert_eq!(
        q(Intent::keyed(Operation::Read, key), Cause::NotRows),
        format!("Into rows failed (read key={})", id)
    );
    assert_eq!(
        q(
            Intent::keyed(Operation::Read, key),
            Cause::Serialization { column: Column::Fact, fault: Fault::Null }
        ),
        format!("Try from row failed (read key={})", id)
    );
    assert_eq!(
        q(Intent::bare(Operation::Read), Cause::NothingToChoose),
        "Failed to choose random key (read)"
    );
    assert_eq!(
        q(Intent::bare(Operation::Create), Cause::KeysExhausted),
        "No key left for a new fact (create)"
    );
}

#[test]
fn a_failed_create_shows_its_fields_quoted() {
    let key = Key::from_u128(0x0123_4567_89ab_cdef_0011_2233_4455_6677);
    let id = "01234567-89ab-cdef-0011-223344556677";
    let e = StoreError::Query {
        intent: Intent::full(Operation::Create, key, "Cats have 230 bones.", "Cat fact"),
        cause: Cause::Rejected,
    };
    assert_eq!(
        e.message(),
        format!("Query failed with fact=\"Cats have 230 bones.\" kind=\"Cat fact\" (create key={})", id)
    );
    let e = StoreError::Query {
        intent: Intent::full(Operation::Create, key, "a \"b\"\n", ""),
        cause: Cause::TimedOut,
    };
    assert_eq!(
        e.message(),
        format!("Query failed with fact={:?} kind={:?} (create key={})", "a \"b\"\n", "", id)
    );
    assert!(e.message().starts_with("Query failed with fact=\"a \\\"b\\\"\\n\" kind=\"\""));
    assert_eq!(hello4000::error::say_with_fields("x", "y"), "Query failed with fact=x kind=y");
    let e = StoreError::Query {
        intent: Intent::keyed(Operation::Create, key),
        cause: Cause::Rejected,
    };
    assert_eq!(e.message(), format!("Query failed (create key={})", id));
}

#[test]
fn an_intent_is_shown_with_what_it_holds() {
    let key = Key::from_u128(u128::MAX);
    assert_eq!(
        Intent::full(Operation::Update, key, "f", "k").describe(),
        "update key=ffffffff-ffff-ffff-ffff-ffffffffffff fact=\"f\" kind=\"k\""
    );
    assert_eq!(
        Intent::full(Operation::Create, key, "f", "k").describe(),
        "create key=ffffffff-ffff-ffff-ffff-ffffffffffff"
    );
    assert_eq!(Intent::bare(Operation::ListKeys).describe(), "list keys");
    assert_eq!(
        hello4000::error::say_intent(
            Operation::Delete,
            &Some("K".to_string()),
            &None,
            &Some("T".to_string())
        ),
        "delete key=K kind=T"
    );
    assert_eq!(hello4000::error::name_of(Operation::CreateTable), "create table");
}

#[test]
fn the_text_of_a_key_is_that_of_its_identifier() {
    for v in [
        0u128,
        1,
        0x0123_4567_89ab_cdef_0011_2233_4455_6677,
        0xdead_beef_0000_0000_0000_0000_0000_000a,
        u128::MAX,
        92233720368547758080,
    ] {
        assert_eq!(
            Key::from_u128(v).to_text(),
            uuid::Uuid::from_u128(v).to_hyphenated().to_string()
        );
    }
    assert_eq!(Key::from_u128(0).to_text(), "00000000-0000-0000-0000-000000000000");
    assert_eq!(
        Key::from_u128(0x0123_4567_89ab_cdef_0011_2233_4455_6677).to_text(),
        "01234567-89ab-cdef-0011-223344556677"
    );
}
