//! The stored record.

use crate::key::Key;
use vstd::prelude::*;

verus! {

/// One stored fact. The key is assigned when the fact is created and
/// never changes; the text and the category tag can be replaced.
#[derive(Debug, PartialEq, Eq)]
pub struct Fact {
    pub key: Key,
    pub fact: String,
    pub kind: String,
}

/// What a `Fact` holds, as plain values.
pub struct FactView {
    pub key: u128,
    pub fact: Seq<char>,
    pub kind: Seq<char>,
}

impl View for Fact {
    type V = FactView;

    open spec fn view(&self) -> FactView {
        FactView { key: self.key@, fact: self.fact@, kind: self.kind@ }
    }
}

impl Clone for Fact {
    fn clone(&self) -> (copy: Fact)
        ensures
            copy@ == self@,
    {
        Fact { key: self.key, fact: self.fact.clone(), kind: self.kind.clone() }
    }
}

impl Fact {
    /// A fact with the given key, text and category tag.
    pub fn new(key: Key, fact: &str, kind: &str) -> (f: Fact)
        ensures
            f@ == (FactView { key: key@, fact: fact@, kind: kind@ }),
    {
        Fact { key, fact: fact.to_owned(), kind: kind.to_owned() }
    }

    /// The key under which the fact is stored.
    pub fn key(&self) -> (k: Key)
        ensures
            k == self.key,
    {
        self.key
    }
}

} // verus!
