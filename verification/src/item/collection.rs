//! A collections.
use crate::util::key_map::MapKey;
use vstd::prelude::*;

verus! {

/// A collection's numeric identifier.
#[derive(Debug, Clone, Copy, PartialEq, Eq)]
pub struct CollectionId(pub u64);

impl View for CollectionId {
    type V = u64;

    open spec fn view(&self) -> u64 {
        self.0
    }
}

impl MapKey for CollectionId {
    open spec fn spec_lt(a: u64, b: u64) -> bool {
        a < b
    }

    proof fn lemma_lt_order(a: u64, b: u64, c: u64) {
    }

    fn key_lt(&self, other: &Self) -> (r: bool) {
        self.0 < other.0
    }

    fn key_eq(&self, other: &Self) -> (r: bool) {
        self.0 == other.0
    }

    fn key_clone(&self) -> (r: Self) {
        CollectionId(self.0)
    }
}

} // verus!
