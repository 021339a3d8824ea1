//! The statements that the store sends to the cluster.

use crate::error::{bare_intent, full_intent, keyed_intent, Intent, IntentView, Operation};
use crate::key::Key;
use crate::level::Level;
use vstd::prelude::*;

verus! {

/// Lists the keys of all facts.
pub const SELECT_KEYS: &'static str = "SELECT key FROM pfacts.facts;";

/// Stores a new fact.
pub const INSERT_FACT: &'static str =
    "INSERT INTO pfacts.facts (key, fact, kind) VALUES (?, ?, ?);";

/// Fetches the fact with one key.
pub const SELECT_FACT: &'static str = "SELECT * from pfacts.facts WHERE key = ?;";

/// Replaces the text and the tag of the fact with one key.
pub const UPDATE_FACT: &'static str = "UPDATE pfacts.facts SET fact = ?, kind = ? WHERE key = ?;";

/// Removes the fact with one key.
pub const DELETE_FACT: &'static str = "DELETE FROM pfacts.facts WHERE key = ?;";

/// Creates the fact table unless it is there.
pub const CREATE_TABLE: &'static str =
    "CREATE TABLE IF NOT EXISTS pfacts.facts (key uuid PRIMARY KEY, fact varchar, kind varchar);";

/// Removes every fact.
pub const TRUNCATE_TABLE: &'static str = "TRUNCATE pfacts.facts;";

/// What stands before the replication factor in the statement that
/// creates the keyspace.
pub const KEYSPACE_HEAD: &'static str =
    "CREATE KEYSPACE IF NOT EXISTS pfacts WITH REPLICATION = {'class' : 'NetworkTopologyStrategy', 'datacenter1' : ";

/// What stands behind the replication factor.
pub const KEYSPACE_TAIL: &'static str = "};";

/// One statement: its text, the values bound to it and the consistency
/// level to run it at.
#[derive(Debug, PartialEq, Eq)]
pub struct Statement {
    pub intent: Intent,
    pub text: String,
    pub consistency: Level,
}

/// What a `Statement` holds, as plain values.
pub struct StatementView {
    pub intent: IntentView,
    pub text: Seq<char>,
    pub consistency: Level,
}

impl View for Statement {
    type V = StatementView;

    open spec fn view(&self) -> StatementView {
        StatementView { intent: self.intent@, text: self.text@, consistency: self.consistency }
    }
}

/// A value bound to one `?` of a statement.
#[derive(Debug, PartialEq, Eq)]
pub enum Bound {
    Id(Key),
    Text(String),
}

/// What a `Bound` holds, as plain values.
pub enum BoundView {
    Id(u128),
    Text(Seq<char>),
}

impl View for Bound {
    type V = BoundView;

    open spec fn view(&self) -> BoundView {
        match self {
            Bound::Id(k) => BoundView::Id(k@),
            Bound::Text(s) => BoundView::Text(s@),
        }
    }
}

/// The views of a sequence of bound values.
pub open spec fn bounds_view(values: Seq<Bound>) -> Seq<BoundView> {
    values.map_values(|b: Bound| b@)
}

/// The key as a bound value, if there is one.
pub open spec fn bound_id(key: Option<u128>) -> Seq<BoundView> {
    match key {
        Some(k) => seq![BoundView::Id(k)],
        None => Seq::empty(),
    }
}

/// The text as a bound value, if there is one.
pub open spec fn bound_text(text: Option<Seq<char>>) -> Seq<BoundView> {
    match text {
        Some(t) => seq![BoundView::Text(t)],
        None => Seq::empty(),
    }
}

/// The values of a statement in the order of the `?` in its text: key,
/// fact, kind where a fact is stored; fact, kind, key where one is
/// replaced; the key where one is read or removed; none otherwise.
pub open spec fn bound_values(intent: IntentView) -> Seq<BoundView> {
    match intent.operation {
        Operation::Create => bound_id(intent.key) + bound_text(intent.fact) + bound_text(
            intent.kind,
        ),
        Operation::Update => bound_text(intent.fact) + bound_text(intent.kind) + bound_id(
            intent.key,
        ),
        Operation::Read | Operation::Delete => bound_id(intent.key),
        _ => Seq::empty(),
    }
}

/// The character for one decimal digit.
pub open spec fn digit_char(d: nat) -> char {
    if d == 0 {
        '0'
    } else if d == 1 {
        '1'
    } else if d == 2 {
        '2'
    } else if d == 3 {
        '3'
    } else if d == 4 {
        '4'
    } else if d == 5 {
        '5'
    } else if d == 6 {
        '6'
    } else if d == 7 {
        '7'
    } else if d == 8 {
        '8'
    } else {
        '9'
    }
}

/// The decimal numeral of `n`, without leading zeros.
pub open spec fn decimal(n: nat) -> Seq<char>
    decreases n,
{
    if n < 10 {
        seq![digit_char(n)]
    } else {
        decimal(n / 10).push(digit_char(n % 10))
    }
}

/// The text that creates the keyspace with `replicas` copies of each row.
pub open spec fn keyspace_text(replicas: u32) -> Seq<char> {
    KEYSPACE_HEAD@ + decimal(replicas as nat) + KEYSPACE_TAIL@
}

fn digit_text(d: u64) -> (s: &'static str)
    requires
        d < 10,
    ensures
        s@ == seq![digit_char(d as nat)],
{
    proof {
        reveal_strlit("0");
        reveal_strlit("1");
        reveal_strlit("2");
        reveal_strlit("3");
        reveal_strlit("4");
        reveal_strlit("5");
        reveal_strlit("6");
        reveal_strlit("7");
        reveal_strlit("8");
        reveal_strlit("9");
    }
    let s = if d == 0 {
        "0"
    } else if d == 1 {
        "1"
    } else if d == 2 {
        "2"
    } else if d == 3 {
        "3"
    } else if d == 4 {
        "4"
    } else if d == 5 {
        "5"
    } else if d == 6 {
        "6"
    } else if d == 7 {
        "7"
    } else if d == 8 {
        "8"
    } else {
        "9"
    };
    assert(s@ =~= seq![digit_char(d as nat)]);
    s
}

/// Writes `n` as a decimal numeral.
pub fn render_decimal(n: u64) -> (s: String)
    ensures
        s@ == decimal(n as nat),
    decreases n,
{
    if n < 10 {
        String::from_str(digit_text(n))
    } else {
        let mut s = render_decimal(n / 10);
        s.append(digit_text(n % 10));
        assert(s@ =~= decimal(n as nat));
        s
    }
}

/// The statement that lists all keys.
pub open spec fn list_keys_statement(level: Level) -> StatementView {
    StatementView {
        intent: bare_intent(Operation::ListKeys),
        text: SELECT_KEYS@,
        consistency: level,
    }
}

/// The statement that stores `fact` and `kind` under `key`.
pub open spec fn create_statement(
    key: u128,
    fact: Seq<char>,
    kind: Seq<char>,
    level: Level,
) -> StatementView {
    StatementView {
        intent: full_intent(Operation::Create, key, fact, kind),
        text: INSERT_FACT@,
        consistency: level,
    }
}

/// The statement that fetches the fact under `key`.
pub open spec fn read_statement(key: u128, level: Level) -> StatementView {
    StatementView {
        intent: keyed_intent(Operation::Read, key),
        text: SELECT_FACT@,
        consistency: level,
    }
}

/// The statement that replaces text and tag of the fact under `key`.
pub open spec fn update_statement(
    key: u128,
    fact: Seq<char>,
    kind: Seq<char>,
    level: Level,
) -> StatementView {
    StatementView {
        intent: full_intent(Operation::Update, key, fact, kind),
        text: UPDATE_FACT@,
        consistency: level,
    }
}

/// The statement that removes the fact under `key`.
pub open spec fn delete_statement(key: u128, level: Level) -> StatementView {
    StatementView {
        intent: keyed_intent(Operation::Delete, key),
        text: DELETE_FACT@,
        consistency: level,
    }
}

/// The statement that creates the keyspace.
pub open spec fn keyspace_statement(replicas: u32, level: Level) -> StatementView {
    StatementView {
        intent: bare_intent(Operation::CreateKeyspace),
        text: keyspace_text(replicas),
        consistency: level,
    }
}

/// The statement that creates the fact table.
pub open spec fn table_statement(level: Level) -> StatementView {
    StatementView {
        intent: bare_intent(Operation::CreateTable),
        text: CREATE_TABLE@,
        consistency: level,
    }
}

/// The statement that removes every fact. It always runs at level `One`.
pub open spec fn reset_statement() -> StatementView {
    StatementView {
        intent: bare_intent(Operation::ResetData),
        text: TRUNCATE_TABLE@,
        consistency: Level::One,
    }
}

fn push_id(values: &mut Vec<Bound>, key: &Option<Key>)
    ensures
        bounds_view(final(values)@) == bounds_view(old(values)@) + bound_id(
            crate::error::key_view(*key),
        ),
{
    let ghost before = bounds_view(values@);
    match key {
        Some(k) => {
            values.push(Bound::Id(*k));
            assert(bounds_view(values@) =~= before + seq![BoundView::Id(k@)]);
        },
        None => {
            assert(bounds_view(values@) =~= before + Seq::<BoundView>::empty());
        },
    }
}

fn push_text(values: &mut Vec<Bound>, text: &Option<String>)
    ensures
        bounds_view(final(values)@) == bounds_view(old(values)@) + bound_text(
            crate::error::text_view(*text),
        ),
{
    let ghost before = bounds_view(values@);
    match text {
        Some(t) => {
            values.push(Bound::Text(t.clone()));
            assert(bounds_view(values@) =~= before + seq![BoundView::Text(t@)]);
        },
        None => {
            assert(bounds_view(values@) =~= before + Seq::<BoundView>::empty());
        },
    }
}

/// Whether the answer to an operation is read for rows: only a listing
/// and a read are. The answer to any other statement counts as soon as
/// it arrives, whatever it holds.
pub open spec fn returns_rows(operation: Operation) -> bool {
    operation == Operation::ListKeys || operation == Operation::Read
}

impl Statement {
    /// Whether the answer to the statement is to be read for rows.
    pub fn expects_rows(&self) -> (b: bool)
        ensures
            b == returns_rows(self@.intent.operation),
    {
        match self.intent.operation {
            Operation::ListKeys => true,
            Operation::Read => true,
            _ => false,
        }
    }

    /// The values to bind, in the order of the `?` in the text.
    pub fn values(&self) -> (values: Vec<Bound>)
        ensures
            bounds_view(values@) == bound_values(self@.intent),
    {
        let mut values: Vec<Bound> = Vec::new();
        assert(bounds_view(values@) =~= Seq::<BoundView>::empty());
        match self.intent.operation {
            Operation::Create => {
                push_id(&mut values, &self.intent.key);
                push_text(&mut values, &self.intent.fact);
                push_text(&mut values, &self.intent.kind);
            },
            Operation::Update => {
                push_text(&mut values, &self.intent.fact);
                push_text(&mut values, &self.intent.kind);
                push_id(&mut values, &self.intent.key);
            },
            Operation::Read | Operation::Delete => {
                push_id(&mut values, &self.intent.key);
            },
            _ => {},
        }
        assert(bounds_view(values@) =~= bound_values(self@.intent));
        values
    }

    /// The statement that lists all keys.
    pub fn list_keys(level: Level) -> (s: Statement)
        ensures
            s@ == list_keys_statement(level),
    {
        Statement {
            intent: Intent::bare(Operation::ListKeys),
            text: String::from_str(SELECT_KEYS),
            consistency: level,
        }
    }

    /// The statement that stores `fact` and `kind` under `key`.
    pub fn create(key: Key, fact: &str, kind: &str, level: Level) -> (s: Statement)
        ensures
            s@ == create_statement(key@, fact@, kind@, level),
    {
        Statement {
            intent: Intent::full(Operation::Create, key, fact, kind),
            text: String::from_str(INSERT_FACT),
            consistency: level,
        }
    }

    /// The statement that fetches the fact under `key`.
    pub fn read(key: Key, level: Level) -> (s: Statement)
        ensures
            s@ == read_statement(key@, level),
    {
        Statement {
            intent: Intent::keyed(Operation::Read, key),
            text: String::from_str(SELECT_FACT),
            consistency: level,
        }
    }

    /// The statement that replaces text and tag of the fact under `key`.
    pub fn update(key: Key, fact: &str, kind: &str, level: Level) -> (s: Statement)
        ensures
            s@ == update_statement(key@, fact@, kind@, level),
    {
        Statement {
            intent: Intent::full(Operation::Update, key, fact, kind),
            text: String::from_str(UPDATE_FACT),
            consistency: level,
        }
    }

    /// The statement that removes the fact under `key`.
    pub fn delete(key: Key, level: Level) -> (s: Statement)
        ensures
            s@ == delete_statement(key@, level),
    {
        Statement {
            intent: Intent::keyed(Operation::Delete, key),
            text: String::from_str(DELETE_FACT),
            consistency: level,
        }
    }

    /// The statement that creates the keyspace with `replicas` copies of
    /// each row.
    pub fn create_keyspace(replicas: u32, level: Level) -> (s: Statement)
        ensures
            s@ == keyspace_statement(replicas, level),
    {
        let mut text = String::from_str(KEYSPACE_HEAD);
        let number = render_decimal(replicas as u64);
        text.append(number.as_str());
        text.append(KEYSPACE_TAIL);
        Statement { intent: Intent::bare(Operation::CreateKeyspace), text, consistency: level }
    }

    /// The statement that creates the fact table.
    pub fn create_table(level: Level) -> (s: Statement)
        ensures
            s@ == table_statement(level),
    {
        Statement {
            intent: Intent::bare(Operation::CreateTable),
            text: String::from_str(CREATE_TABLE),
            consistency: level,
        }
    }

    /// The statement that removes every fact.
    pub fn reset_data() -> (s: Statement)
        ensures
            s@ == reset_statement(),
    {
        Statement {
            intent: Intent::bare(Operation::ResetData),
            text: String::from_str(TRUNCATE_TABLE),
            consistency: Level::One,
        }
    }
}

} // verus!
