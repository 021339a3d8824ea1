//! What can go wrong in the store, and what was being attempted.

use crate::key::{key_text, Key};
use vstd::prelude::*;

verus! {

/// The operations that the store sends to the cluster.
#[derive(Clone, Copy, Debug, PartialEq, Eq, Structural)]
pub enum Operation {
    ListKeys,
    Create,
    Read,
    Update,
    Delete,
    CreateKeyspace,
    CreateTable,
    ResetData,
}

/// The columns of the fact table.
#[derive(Clone, Copy, Debug, PartialEq, Eq, Structural)]
pub enum Column {
    Key,
    Fact,
    Kind,
}

/// Why a cell of a row could not be read as its column's type.
#[derive(Clone, Copy, Debug, PartialEq, Eq, Structural)]
pub enum Fault {
    /// The row has no such column.
    Missing,
    /// The column holds no value.
    Null,
    /// The column holds a value of another type.
    WrongType,
}

/// Why a statement did not yield what was asked for.
#[derive(Clone, Copy, Debug, PartialEq, Eq, Structural)]
pub enum Cause {
    /// The cluster refused the statement.
    Rejected,
    /// No answer came in time.
    TimedOut,
    /// The statement or its answer was lost on the way.
    Network,
    /// The answer could not be decoded.
    BadFrame,
    /// Rows were asked for and the answer holds none of that shape.
    NotRows,
    /// A row could not be read as a fact.
    Serialization { column: Column, fault: Fault },
    /// No key is left to give to a new fact.
    KeysExhausted,
    /// A fact was to be picked and the store listed none.
    NothingToChoose,
}

/// What a statement was meant to do: the operation with the key and the
/// fields it was given.
#[derive(Debug, PartialEq, Eq)]
pub struct Intent {
    pub operation: Operation,
    pub key: Option<Key>,
    pub fact: Option<String>,
    pub kind: Option<String>,
}

/// What an `Intent` holds, as plain values.
pub struct IntentView {
    pub operation: Operation,
    pub key: Option<u128>,
    pub fact: Option<Seq<char>>,
    pub kind: Option<Seq<char>>,
}

/// The view of an optional string.
pub open spec fn text_view(text: Option<String>) -> Option<Seq<char>> {
    match text {
        Some(s) => Some(s@),
        None => None,
    }
}

/// The view of an optional key.
pub open spec fn key_view(key: Option<Key>) -> Option<u128> {
    match key {
        Some(k) => Some(k@),
        None => None,
    }
}

impl View for Intent {
    type V = IntentView;

    open spec fn view(&self) -> IntentView {
        IntentView {
            operation: self.operation,
            key: key_view(self.key),
            fact: text_view(self.fact),
            kind: text_view(self.kind),
        }
    }
}

/// The intent of an operation that takes neither key nor fields.
pub open spec fn bare_intent(operation: Operation) -> IntentView {
    IntentView { operation, key: None, fact: None, kind: None }
}

/// The intent of an operation on one key.
pub open spec fn keyed_intent(operation: Operation, key: u128) -> IntentView {
    IntentView { operation, key: Some(key), fact: None, kind: None }
}

/// The intent of an operation that stores a text and a tag under a key.
pub open spec fn full_intent(
    operation: Operation,
    key: u128,
    fact: Seq<char>,
    kind: Seq<char>,
) -> IntentView {
    IntentView { operation, key: Some(key), fact: Some(fact), kind: Some(kind) }
}

/// A copy of an optional string.
pub fn copy_text(text: &Option<String>) -> (copy: Option<String>)
    ensures
        text_view(copy) == text_view(*text),
{
    match text {
        Some(s) => Some(s.clone()),
        None => None,
    }
}

impl Clone for Intent {
    fn clone(&self) -> (copy: Intent)
        ensures
            copy@ == self@,
    {
        Intent {
            operation: self.operation,
            key: self.key,
            fact: copy_text(&self.fact),
            kind: copy_text(&self.kind),
        }
    }
}

impl Intent {
    /// The intent of an operation that takes neither key nor fields.
    pub fn bare(operation: Operation) -> (intent: Intent)
        ensures
            intent@ == bare_intent(operation),
    {
        Intent { operation, key: None, fact: None, kind: None }
    }

    /// The intent of an operation on one key.
    pub fn keyed(operation: Operation, key: Key) -> (intent: Intent)
        ensures
            intent@ == keyed_intent(operation, key@),
    {
        Intent { operation, key: Some(key), fact: None, kind: None }
    }

    /// The intent of an operation that stores a text and a tag under a key.
    pub fn full(operation: Operation, key: Key, fact: &str, kind: &str) -> (intent: Intent)
        ensures
            intent@ == full_intent(operation, key@, fact@, kind@),
    {
        Intent {
            operation,
            key: Some(key),
            fact: Some(fact.to_owned()),
            kind: Some(kind.to_owned()),
        }
    }
}

/// The errors of the store.
#[derive(Debug, PartialEq, Eq)]
pub enum StoreError {
    /// The session with the cluster could not be set up or is lost.
    Connection,
    /// A statement failed; `intent` says what it was meant to do.
    Query { intent: Intent, cause: Cause },
    /// The statement went through and no fact has this key.
    NotFound { key: Key },
}

/// What a `StoreError` holds, as plain values.
pub enum StoreErrorView {
    Connection,
    Query { intent: IntentView, cause: Cause },
    NotFound { key: u128 },
}

impl View for StoreError {
    type V = StoreErrorView;

    open spec fn view(&self) -> StoreErrorView {
        match self {
            StoreError::Connection => StoreErrorView::Connection,
            StoreError::Query { intent, cause } => StoreErrorView::Query {
                intent: intent@,
                cause: *cause,
            },
            StoreError::NotFound { key } => StoreErrorView::NotFound { key: key@ },
        }
    }
}

impl Clone for StoreError {
    fn clone(&self) -> (copy: StoreError)
        ensures
            copy@ == self@,
    {
        match self {
            StoreError::Connection => StoreError::Connection,
            StoreError::Query { intent, cause } => StoreError::Query {
                intent: intent.clone(),
                cause: *cause,
            },
            StoreError::NotFound { key } => StoreError::NotFound { key: *key },
        }
    }
}

/// What is said of a session that could not be set up or is lost.
pub const CONNECT_FAILED: &'static str = "Failed to connect to Cassandra";

/// What is said of a key that no fact has.
pub const NO_SUCH_FACT: &'static str = "No such fact";

/// What is said of a statement that failed.
pub const QUERY_FAILED: &'static str = "Query failed";

/// What is said of the creation of the keyspace when it failed.
pub const KEYSPACE_FAILED: &'static str = "Failed to create keyspace: Query failed";

/// What is said of the creation of the table when it failed.
pub const TABLE_FAILED: &'static str = "Failed to create table: Query failed";

/// What is said of an answer that could not be decoded.
pub const BODY_FAILED: &'static str = "Get body failed";

/// What is said of an answer that holds no rows where rows were asked
/// for.
pub const ROWS_FAILED: &'static str = "Into rows failed";

/// What is said of a row that could not be read.
pub const ROW_FAILED: &'static str = "Try from row failed";

/// What is said when no fact could be chosen.
pub const CHOICE_FAILED: &'static str = "Failed to choose random key";

/// What is said when no key is left.
pub const KEYS_FAILED: &'static str = "No key left for a new fact";

/// The parts around the two fields in what is said of a fact that could
/// not be created.
pub const WITH_FACT: &'static str = "Query failed with fact=";

pub const WITH_KIND: &'static str = " kind=";

/// The text that `{:?}` writes for a string: the string between double
/// quotes, with the characters escaped that the standard library
/// escapes there.
pub uninterp spec fn debug_text(text: Seq<char>) -> Seq<char>;

/// `format!` with `{:?}` on a string, which is `<str as Debug>::fmt` of
/// the standard library. The result is named, not spelled out: it
/// depends on the text alone.
#[verifier::external_body]
fn quoted(text: &str) -> (r: String)
    ensures
        r@ == debug_text(text@),
{
    format!("{:?}", text)
}

/// What is said of a fact that could not be created, given the two
/// fields as they are to be shown.
pub open spec fn with_fields(fact: Seq<char>, kind: Seq<char>) -> Seq<char> {
    WITH_FACT@ + fact + WITH_KIND@ + kind
}

/// What is said of a statement that did not go through.
pub open spec fn refusal_text(intent: IntentView) -> Seq<char> {
    match intent.operation {
        Operation::CreateKeyspace => KEYSPACE_FAILED@,
        Operation::CreateTable => TABLE_FAILED@,
        Operation::Create => match (intent.fact, intent.kind) {
            (Some(fact), Some(kind)) => with_fields(debug_text(fact), debug_text(kind)),
            _ => QUERY_FAILED@,
        },
        _ => QUERY_FAILED@,
    }
}

/// What is said of the way in which a statement failed.
pub open spec fn cause_text(intent: IntentView, cause: Cause) -> Seq<char> {
    match cause {
        Cause::Rejected | Cause::TimedOut | Cause::Network => refusal_text(intent),
        Cause::BadFrame => BODY_FAILED@,
        Cause::NotRows => ROWS_FAILED@,
        Cause::Serialization { .. } => ROW_FAILED@,
        Cause::KeysExhausted => KEYS_FAILED@,
        Cause::NothingToChoose => CHOICE_FAILED@,
    }
}

/// The name of an operation.
pub open spec fn operation_name(operation: Operation) -> Seq<char> {
    match operation {
        Operation::ListKeys => "list keys"@,
        Operation::Create => "create"@,
        Operation::Read => "read"@,
        Operation::Update => "update"@,
        Operation::Delete => "delete"@,
        Operation::CreateKeyspace => "create keyspace"@,
        Operation::CreateTable => "create table"@,
        Operation::ResetData => "reset data"@,
    }
}

/// What stands before the key, the text and the tag where an intent is
/// shown.
pub const KEY_LABEL: &'static str = " key=";

pub const FACT_LABEL: &'static str = " fact=";

pub const KIND_LABEL: &'static str = " kind=";

/// What stands around an intent behind what an error says.
pub const INTENT_OPEN: &'static str = " (";

pub const INTENT_CLOSE: &'static str = ")";

/// A label with what it names, or nothing where there is nothing to
/// name.
pub open spec fn labelled(label: Seq<char>, shown: Option<Seq<char>>) -> Seq<char> {
    match shown {
        Some(text) => label + text,
        None => Seq::empty(),
    }
}

/// An intent as it is shown, given its key and its fields as they are to
/// be shown: the name of the operation, then what there is of key, text
/// and tag, each with its label.
pub open spec fn intent_shown(
    operation: Operation,
    key: Option<Seq<char>>,
    fact: Option<Seq<char>>,
    kind: Option<Seq<char>>,
) -> Seq<char> {
    operation_name(operation) + labelled(KEY_LABEL@, key) + labelled(FACT_LABEL@, fact) + labelled(
        KIND_LABEL@,
        kind,
    )
}

/// The text of a field as it is shown, where there is one.
pub open spec fn shown_field(field: Option<Seq<char>>) -> Option<Seq<char>> {
    match field {
        Some(text) => Some(debug_text(text)),
        None => None,
    }
}

/// An intent as it is shown: the operation by its name, the key in its
/// text form, text and tag as `{:?}` writes them. Text and tag of a
/// creation are left out here: what is said of its failure shows them.
pub open spec fn intent_text(intent: IntentView) -> Seq<char> {
    intent_shown(
        intent.operation,
        match intent.key {
            Some(k) => Some(key_text(k)),
            None => None,
        },
        if intent.operation == Operation::Create {
            None
        } else {
            shown_field(intent.fact)
        },
        if intent.operation == Operation::Create {
            None
        } else {
            shown_field(intent.kind)
        },
    )
}

/// What an error says, with the intent of the statement behind it.
pub open spec fn message_text(e: StoreErrorView) -> Seq<char> {
    match e {
        StoreErrorView::Connection => CONNECT_FAILED@,
        StoreErrorView::NotFound { key } => NO_SUCH_FACT@ + INTENT_OPEN@ + intent_text(
            keyed_intent(Operation::Read, key),
        ) + INTENT_CLOSE@,
        StoreErrorView::Query { intent, cause } => cause_text(intent, cause) + INTENT_OPEN@
            + intent_text(intent) + INTENT_CLOSE@,
    }
}

/// What is said of a fact that could not be created, given the two
/// fields as they are to be shown.
pub fn say_with_fields(fact: &str, kind: &str) -> (text: String)
    ensures
        text@ == with_fields(fact@, kind@),
{
    let mut text = String::from_str(WITH_FACT);
    text.append(fact);
    text.append(WITH_KIND);
    text.append(kind);
    text
}

impl Intent {
    /// What is said of a statement with this intent that did not go
    /// through.
    pub fn refusal(&self) -> (text: String)
        ensures
            text@ == refusal_text(self@),
    {
        match self.operation {
            Operation::CreateKeyspace => String::from_str(KEYSPACE_FAILED),
            Operation::CreateTable => String::from_str(TABLE_FAILED),
            Operation::Create => match (&self.fact, &self.kind) {
                (Some(fact), Some(kind)) => {
                    let shown_fact = quoted(fact.as_str());
                    let shown_kind = quoted(kind.as_str());
                    say_with_fields(shown_fact.as_str(), shown_kind.as_str())
                },
                _ => String::from_str(QUERY_FAILED),
            },
            _ => String::from_str(QUERY_FAILED),
        }
    }
}

/// The name of an operation.
pub fn name_of(operation: Operation) -> (name: &'static str)
    ensures
        name@ == operation_name(operation),
{
    match operation {
        Operation::ListKeys => "list keys",
        Operation::Create => "create",
        Operation::Read => "read",
        Operation::Update => "update",
        Operation::Delete => "delete",
        Operation::CreateKeyspace => "create keyspace",
        Operation::CreateTable => "create table",
        Operation::ResetData => "reset data",
    }
}

fn push_labelled(text: &mut String, label: &str, shown: &Option<String>)
    ensures
        final(text)@ == old(text)@ + labelled(label@, text_view(*shown)),
{
    let ghost before = text@;
    match shown {
        Some(t) => {
            text.append(label);
            text.append(t.as_str());
            assert(text@ =~= before + (label@ + t@));
        },
        None => {
            assert(text@ =~= before + Seq::<char>::empty());
        },
    }
}

/// An intent as it is shown, given its key and its fields as they are to
/// be shown.
pub fn say_intent(
    operation: Operation,
    key: &Option<String>,
    fact: &Option<String>,
    kind: &Option<String>,
) -> (text: String)
    ensures
        text@ == intent_shown(operation, text_view(*key), text_view(*fact), text_view(*kind)),
{
    let mut text = String::from_str(name_of(operation));
    push_labelled(&mut text, KEY_LABEL, key);
    push_labelled(&mut text, FACT_LABEL, fact);
    push_labelled(&mut text, KIND_LABEL, kind);
    text
}

/// A field as it is shown, where there is one.
fn show_field(field: &Option<String>) -> (shown: Option<String>)
    ensures
        text_view(shown) == shown_field(text_view(*field)),
{
    match field {
        Some(text) => Some(quoted(text.as_str())),
        None => None,
    }
}

impl Intent {
    /// The intent as it is shown after what an error says.
    pub fn describe(&self) -> (text: String)
        ensures
            text@ == intent_text(self@),
    {
        let key = match self.key {
            Some(k) => Some(k.to_text()),
            None => None,
        };
        match self.operation {
            Operation::Create => say_intent(self.operation, &key, &None, &None),
            _ => {
                let fact = show_field(&self.fact);
                let kind = show_field(&self.kind);
                say_intent(self.operation, &key, &fact, &kind)
            },
        }
    }
}

impl StoreError {
    /// What the way in which a statement failed is called.
    fn cause_said(intent: &Intent, cause: &Cause) -> (text: String)
        ensures
            text@ == cause_text(intent@, *cause),
    {
        match cause {
            Cause::Rejected | Cause::TimedOut | Cause::Network => intent.refusal(),
            Cause::BadFrame => String::from_str(BODY_FAILED),
            Cause::NotRows => String::from_str(ROWS_FAILED),
            Cause::Serialization { .. } => String::from_str(ROW_FAILED),
            Cause::KeysExhausted => String::from_str(KEYS_FAILED),
            Cause::NothingToChoose => String::from_str(CHOICE_FAILED),
        }
    }

    /// What the error says, for people to read: what went wrong, and
    /// behind it the operation with the key and the fields it was given.
    pub fn message(&self) -> (text: String)
        ensures
            text@ == message_text(self@),
    {
        match self {
            StoreError::Connection => String::from_str(CONNECT_FAILED),
            StoreError::NotFound { key } => {
                let mut text = String::from_str(NO_SUCH_FACT);
                let intent = Intent::keyed(Operation::Read, *key);
                let shown = intent.describe();
                text.append(INTENT_OPEN);
                text.append(shown.as_str());
                text.append(INTENT_CLOSE);
                text
            },
            StoreError::Query { intent, cause } => {
                let mut text = StoreError::cause_said(intent, cause);
                let shown = intent.describe();
                text.append(INTENT_OPEN);
                text.append(shown.as_str());
                text.append(INTENT_CLOSE);
                text
            },
        }
    }

    /// Whether the error says that the fact is missing rather than that
    /// the cluster failed.
    pub fn is_not_found(&self) -> (b: bool)
        ensures
            b == (self@ is NotFound),
    {
        match self {
            StoreError::NotFound { .. } => true,
            _ => false,
        }
    }
}

} // verus!
