//! The example facts that a fresh store is filled with.

use vstd::prelude::*;

verus! {

/// The category tag of every example fact.
pub const SEED_KIND: &'static str = "Cat fact";

/// The number of example facts in the stock.
pub const STOCK_FACTS: usize = 258;

/// `pfacts::make`: the texts of the example facts, in the order in which
/// the crate holds them. The list is compiled into that crate and holds
/// 258 texts; every call returns all of them. Nothing is claimed here
/// about what they say. The outside function panics if the texts that
/// the crate was built with cannot be read.
#[verifier::external_body]
pub(crate) fn seed_corpus() -> (corpus: Vec<String>)
    ensures
        corpus@.len() == STOCK_FACTS,
{
    pfacts::make().as_ref().clone()
}

} // verus!
