//! Helpers for building leaves and for the root of a tree of five.

use crate::hash::to_hash::ToHash;
use crate::reduction::{spec_combine, spec_root};
use crate::theorems::lemma_five_leaves_root;
use vstd::prelude::*;
use vstd::string::StringSliceAdditionalSpecFns;

verus! {

/// The digests of the given strings' bytes, in their order.
pub fn raw_leaves_to_hashed_leaves<T: ToHash>(leaves: &[&str]) -> (hashed: Vec<T::Hash>)
    ensures
        hashed@.len() == leaves@.len(),
        forall|i: int|
            0 <= i < leaves@.len() ==> #[trigger] hashed@[i] == T::spec_hash(
                leaves@[i].spec_bytes(),
            ),
{
    let mut hashed: Vec<T::Hash> = Vec::new();
    let mut index: usize = 0;
    while index < leaves.len()
        invariant
            index <= leaves@.len(),
            hashed@.len() == index,
            forall|i: int|
                0 <= i < index ==> #[trigger] hashed@[i] == T::spec_hash(leaves@[i].spec_bytes()),
        decreases leaves@.len() - index,
    {
        hashed.push(T::hash(leaves[index].as_bytes()));
        index += 1;
    }
    hashed
}

/// The root over the first five leaves, written out pair by pair: the
/// first four reduce to one digest, which is combined with the fifth.
pub fn full_root_hash<T: ToHash>(leaves: &[T::Hash]) -> (root: T::Hash)
    requires
        leaves@.len() >= 5,
    ensures
        root == spec_root::<T>(leaves@.take(5)),
        root == spec_combine::<T>(
            spec_combine::<T>(
                spec_combine::<T>(leaves@[0], leaves@[1]),
                spec_combine::<T>(leaves@[2], leaves@[3]),
            ),
            leaves@[4],
        ),
{
    proof {
        lemma_five_leaves_root::<T>(leaves@.take(5));
    }
    T::combine(
        T::combine(T::combine(leaves[0], leaves[1]), T::combine(leaves[2], leaves[3])),
        leaves[4],
    )
}

} // verus!
