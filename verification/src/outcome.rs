//! What running a statement on the cluster brings back, and what that
//! means for each operation.

use crate::error::{
    bare_intent, keyed_intent, Cause, Intent, IntentView, Operation, StoreError, StoreErrorView,
};
use crate::fact::{Fact, FactView};
use crate::key::Key;
use crate::row::{fact_of_row, keys_of_rows, keys_view, rows_view, Row, RowView};
use vstd::prelude::*;

verus! {

/// The ways in which running a statement fails.
#[derive(Clone, Copy, Debug, PartialEq, Eq, Structural)]
pub enum Failure {
    /// The session with the cluster is gone.
    Disconnected,
    /// The cluster refused the statement.
    Rejected,
    /// No answer came in time.
    TimedOut,
    /// The statement or its answer was lost on the way.
    Network,
    /// The answer could not be decoded.
    BadFrame,
}

/// What went wrong on the way to the cluster or back, as the transport
/// tells it.
#[derive(Clone, Copy, Debug, PartialEq, Eq, Structural)]
pub enum Trouble {
    /// The operation ran out of time.
    TimedOut,
    /// The operation would have had to wait: a read that timed out
    /// shows so on some systems.
    WouldBlock,
    /// There is no connection.
    NotConnected,
    /// The other side has closed the connection.
    BrokenPipe,
    /// The connection was reset by the other side.
    ConnectionReset,
    /// The connection was given up on this side.
    ConnectionAborted,
    /// The answer ended before it was complete.
    UnexpectedEof,
    /// Any other failure of input or output.
    OtherIo,
    /// The cluster answered with an error.
    Server,
    /// The answer could not be decoded.
    Undecodable,
}

/// The failure that a trouble of the transport amounts to. A connection
/// that is gone, closed or cut off means that the session is lost, which
/// ends the store for good; running out of time, a refusal by the
/// cluster and an answer that cannot be decoded leave the session
/// standing.
pub open spec fn failure_of(trouble: Trouble) -> Failure {
    match trouble {
        Trouble::TimedOut | Trouble::WouldBlock => Failure::TimedOut,
        Trouble::NotConnected
        | Trouble::BrokenPipe
        | Trouble::ConnectionReset
        | Trouble::ConnectionAborted
        | Trouble::UnexpectedEof => Failure::Disconnected,
        Trouble::OtherIo => Failure::Network,
        Trouble::Server => Failure::Rejected,
        Trouble::Undecodable => Failure::BadFrame,
    }
}

/// The failure that a trouble of the transport amounts to.
pub fn classify(trouble: Trouble) -> (failure: Failure)
    ensures
        failure == failure_of(trouble),
{
    match trouble {
        Trouble::TimedOut | Trouble::WouldBlock => Failure::TimedOut,
        Trouble::NotConnected
        | Trouble::BrokenPipe
        | Trouble::ConnectionReset
        | Trouble::ConnectionAborted
        | Trouble::UnexpectedEof => Failure::Disconnected,
        Trouble::OtherIo => Failure::Network,
        Trouble::Server => Failure::Rejected,
        Trouble::Undecodable => Failure::BadFrame,
    }
}

/// What running one statement brought back.
#[derive(Debug, PartialEq, Eq)]
pub enum Outcome {
    /// The statement ran and returned these rows.
    Rows(Vec<Row>),
    /// The statement ran and returned no rows at all.
    Done,
    /// The statement failed.
    Failed(Failure),
}

/// What an `Outcome` holds, as plain values.
pub enum OutcomeView {
    Rows(Seq<RowView>),
    Done,
    Failed(Failure),
}

impl View for Outcome {
    type V = OutcomeView;

    open spec fn view(&self) -> OutcomeView {
        match self {
            Outcome::Rows(rows) => OutcomeView::Rows(rows_view(rows@)),
            Outcome::Done => OutcomeView::Done,
            Outcome::Failed(f) => OutcomeView::Failed(*f),
        }
    }
}

/// The error that a failure gives when the statement had this intent: a
/// lost session is a connection error, anything else a query error.
pub open spec fn failure_error(intent: IntentView, failure: Failure) -> StoreErrorView {
    match failure {
        Failure::Disconnected => StoreErrorView::Connection,
        Failure::Rejected => StoreErrorView::Query { intent, cause: Cause::Rejected },
        Failure::TimedOut => StoreErrorView::Query { intent, cause: Cause::TimedOut },
        Failure::Network => StoreErrorView::Query { intent, cause: Cause::Network },
        Failure::BadFrame => StoreErrorView::Query { intent, cause: Cause::BadFrame },
    }
}

/// What an outcome means for a statement that changes the store: it
/// succeeded unless running it failed.
pub open spec fn write_reply(intent: IntentView, outcome: OutcomeView) -> Result<
    (),
    StoreErrorView,
> {
    match outcome {
        OutcomeView::Failed(f) => Err(failure_error(intent, f)),
        _ => Ok(()),
    }
}

/// What an outcome means for the read of `key`: the fact in the first
/// row; no row means that the fact is missing.
pub open spec fn read_reply(key: u128, outcome: OutcomeView) -> Result<FactView, StoreErrorView> {
    let intent = keyed_intent(Operation::Read, key);
    match outcome {
        OutcomeView::Failed(f) => Err(failure_error(intent, f)),
        OutcomeView::Done => Err(StoreErrorView::Query { intent, cause: Cause::NotRows }),
        OutcomeView::Rows(rows) => if rows.len() == 0 {
            Err(StoreErrorView::NotFound { key })
        } else {
            match fact_of_row(rows[0]) {
                Ok(fact) => Ok(fact),
                Err(cause) => Err(StoreErrorView::Query { intent, cause }),
            }
        },
    }
}

/// What an outcome means for the listing of keys: the key of every row,
/// in the order of the rows.
pub open spec fn keys_reply(outcome: OutcomeView) -> Result<Seq<u128>, StoreErrorView> {
    let intent = bare_intent(Operation::ListKeys);
    match outcome {
        OutcomeView::Failed(f) => Err(failure_error(intent, f)),
        OutcomeView::Done => Err(StoreErrorView::Query { intent, cause: Cause::NotRows }),
        OutcomeView::Rows(rows) => match keys_of_rows(rows) {
            Ok(keys) => Ok(keys),
            Err(cause) => Err(StoreErrorView::Query { intent, cause }),
        },
    }
}

/// The view of the result of an operation that returns nothing.
pub open spec fn unit_result(r: Result<(), StoreError>) -> Result<(), StoreErrorView> {
    match r {
        Ok(_) => Ok(()),
        Err(e) => Err(e@),
    }
}

/// The view of the result of an operation that returns a fact.
pub open spec fn fact_result(r: Result<Fact, StoreError>) -> Result<FactView, StoreErrorView> {
    match r {
        Ok(f) => Ok(f@),
        Err(e) => Err(e@),
    }
}

/// The view of the result of an operation that returns keys.
pub open spec fn keys_result(r: Result<Vec<Key>, StoreError>) -> Result<Seq<u128>, StoreErrorView> {
    match r {
        Ok(keys) => Ok(keys_view(keys@)),
        Err(e) => Err(e@),
    }
}

/// The view of the result of an operation that returns one key.
pub open spec fn key_result(r: Result<Key, StoreError>) -> Result<u128, StoreErrorView> {
    match r {
        Ok(k) => Ok(k@),
        Err(e) => Err(e@),
    }
}

/// The error that `failure` gives for a statement with this intent.
pub fn error_of_failure(intent: Intent, failure: Failure) -> (e: StoreError)
    ensures
        e@ == failure_error(intent@, failure),
{
    match failure {
        Failure::Disconnected => StoreError::Connection,
        Failure::Rejected => StoreError::Query { intent, cause: Cause::Rejected },
        Failure::TimedOut => StoreError::Query { intent, cause: Cause::TimedOut },
        Failure::Network => StoreError::Query { intent, cause: Cause::Network },
        Failure::BadFrame => StoreError::Query { intent, cause: Cause::BadFrame },
    }
}

/// Reads the outcome of a statement that changes the store.
pub fn conclude_write(intent: Intent, outcome: &Outcome) -> (r: Result<(), StoreError>)
    ensures
        unit_result(r) == write_reply(intent@, outcome@),
{
    match outcome {
        Outcome::Failed(f) => Err(error_of_failure(intent, *f)),
        _ => Ok(()),
    }
}

/// Reads the outcome of the read of `key`.
pub fn conclude_read(key: Key, outcome: &Outcome) -> (r: Result<Fact, StoreError>)
    ensures
        fact_result(r) == read_reply(key@, outcome@),
{
    let intent = Intent::keyed(Operation::Read, key);
    match outcome {
        Outcome::Failed(f) => Err(error_of_failure(intent, *f)),
        Outcome::Done => Err(StoreError::Query { intent, cause: Cause::NotRows }),
        Outcome::Rows(rows) => {
            if rows.len() == 0 {
                Err(StoreError::NotFound { key })
            } else {
                match rows[0].to_fact() {
                    Ok(fact) => Ok(fact),
                    Err(cause) => Err(StoreError::Query { intent, cause }),
                }
            }
        },
    }
}

/// Reads the keys out of `rows`, stopping at the first row whose key
/// cannot be read.
pub fn collect_keys(rows: &Vec<Row>) -> (r: Result<Vec<Key>, Cause>)
    ensures
        match keys_of_rows(rows_view(rows@)) {
            Ok(ks) => r matches Ok(keys) && keys_view(keys@) == ks,
            Err(c) => r matches Err(e) && e == c,
        },
{
    let mut keys: Vec<Key> = Vec::new();
    let mut i: usize = 0;
    assert(rows_view(rows@).take(0) =~= Seq::<RowView>::empty());
    assert(keys_view(keys@) =~= Seq::<u128>::empty());
    while i < rows.len()
        invariant
            i <= rows.len(),
            keys_of_rows(rows_view(rows@).take(i as int)) == Ok::<Seq<u128>, Cause>(
                keys_view(keys@),
            ),
        decreases rows.len() - i,
    {
        let ghost all = rows_view(rows@);
        let ghost before = keys_view(keys@);
        proof {
            assert(all.take(i + 1).drop_last() =~= all.take(i as int));
            assert(all.take(i + 1).last() == rows[i as int]@);
        }
        match rows[i].to_key() {
            Ok(k) => {
                keys.push(k);
                assert(keys_view(keys@) =~= before.push(k@));
            },
            Err(c) => {
                proof {
                    lemma_keys_fault_stays(all, i + 1);
                }
                return Err(c);
            },
        }
        i = i + 1;
    }
    assert(rows_view(rows@).take(i as int) =~= rows_view(rows@));
    Ok(keys)
}

/// A fault among the first `n` rows is the fault of the whole sequence.
pub proof fn lemma_keys_fault_stays(rows: Seq<RowView>, n: int)
    requires
        0 <= n <= rows.len(),
        keys_of_rows(rows.take(n)) is Err,
    ensures
        keys_of_rows(rows) == keys_of_rows(rows.take(n)),
    decreases rows.len() - n,
{
    if n == rows.len() {
        assert(rows.take(n) =~= rows);
    } else {
        assert(rows.take(n + 1).drop_last() =~= rows.take(n));
        lemma_keys_fault_stays(rows, n + 1);
    }
}

/// Reads the outcome of the listing of keys.
pub fn conclude_keys(outcome: &Outcome) -> (r: Result<Vec<Key>, StoreError>)
    ensures
        keys_result(r) == keys_reply(outcome@),
{
    let intent = Intent::bare(Operation::ListKeys);
    match outcome {
        Outcome::Failed(f) => Err(error_of_failure(intent, *f)),
        Outcome::Done => Err(StoreError::Query { intent, cause: Cause::NotRows }),
        Outcome::Rows(rows) => match collect_keys(rows) {
            Ok(keys) => Ok(keys),
            Err(cause) => Err(StoreError::Query { intent, cause }),
        },
    }
}

} // verus!
