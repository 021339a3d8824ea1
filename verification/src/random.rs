//! Picking one fact at random: the keys are listed first and one of them
//! is read afterwards, as two separate statements. A fact that is removed
//! in between is reported as missing by the read.

use crate::error::{bare_intent, key_view, Cause, Intent, Operation, StoreError, StoreErrorView};
use crate::facts::{statement_result, ContextView, FactsContext, Link};
use crate::key::Key;
use crate::statement::{read_statement, Statement, StatementView};
use rand::seq::SliceRandom;
use vstd::prelude::*;

verus! {

/// `rand::seq::SliceRandom::choose` on the slice of `keys`, drawing from
/// `rand::thread_rng()`: no key when there is none to choose from, else
/// one of the keys. Which one is left open. The outside generator
/// panics if the system gives it no seed.
#[verifier::external_body]
pub(crate) fn choose_key(keys: &Vec<Key>) -> (choice: Option<Key>)
    ensures
        match choice {
            Some(k) => keys@.contains(k),
            None => keys@.len() == 0,
        },
{
    keys.choose(&mut rand::thread_rng()).copied()
}

/// What is sent to read the chosen fact: a connection error once the
/// session is gone, a query error when nothing could be chosen, else the
/// statement that reads the chosen key at the level for reads.
pub open spec fn random_request(ctx: ContextView, choice: Option<u128>) -> Result<
    StatementView,
    StoreErrorView,
> {
    if ctx.link != Link::Connected {
        Err(StoreErrorView::Connection)
    } else {
        match choice {
            None => Err(
                StoreErrorView::Query {
                    intent: bare_intent(Operation::Read),
                    cause: Cause::NothingToChoose,
                },
            ),
            Some(key) => Ok(read_statement(key, ctx.policy.read)),
        }
    }
}

/// The error for a choice among no keys: a connection error once the
/// session is gone, else a query error.
pub fn nothing_chosen(ctx: &FactsContext) -> (e: StoreError)
    ensures
        random_request(ctx@, None) == Err::<StatementView, StoreErrorView>(e@),
{
    match ctx.link() {
        Link::Connected => StoreError::Query {
            intent: Intent::bare(Operation::Read),
            cause: Cause::NothingToChoose,
        },
        _ => StoreError::Connection,
    }
}

/// The statement that reads the fact that was chosen, if one was.
pub fn random_fact_with(ctx: &FactsContext, choice: Option<Key>) -> (r: Result<
    Statement,
    StoreError,
>)
    ensures
        statement_result(r) == random_request(ctx@, key_view(choice)),
{
    match choice {
        Some(key) => ctx.read_fact(key),
        None => Err(nothing_chosen(ctx)),
    }
}

/// Chooses one of `keys` at random and gives the statement that reads
/// it. Whichever key is drawn, the result is that of `random_fact_with`
/// for it.
pub fn random_fact(ctx: &FactsContext, keys: &Vec<Key>) -> (r: Result<Statement, StoreError>)
    ensures
        keys@.len() == 0 ==> statement_result(r) == random_request(ctx@, None),
        keys@.len() > 0 ==> exists|i: int|
            0 <= i < keys@.len() && statement_result(r) == random_request(
                ctx@,
                Some(#[trigger] keys@[i]@),
            ),
{
    let choice = choose_key(keys);
    random_fact_with(ctx, choice)
}

} // verus!
