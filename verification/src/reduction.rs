//! The mathematics of a tree: how a sequence of digests reduces level by
//! level to a root, and which siblings are collected for one target on the
//! way up.

use crate::hash::to_hash::ToHash;
use vstd::prelude::*;

verus! {

/// The parent of two digests: the hash of the greater one's bytes followed
/// by the lesser one's.
pub open spec fn spec_combine<T: ToHash>(left: T::Hash, right: T::Hash) -> T::Hash {
    T::spec_hash(
        crate::hash::bytes::spec_combine_input(T::digest_bytes(left), T::digest_bytes(right)),
    )
}

/// The level above a level: consecutive pairs are combined, and the last
/// digest of a level of odd length moves up as it is.
pub open spec fn spec_next_level<T: ToHash>(level: Seq<T::Hash>) -> Seq<T::Hash> {
    Seq::new(
        ((level.len() + 1) / 2) as nat,
        |i: int|
            if 2 * i + 1 < level.len() {
                spec_combine::<T>(level[2 * i], level[2 * i + 1])
            } else {
                level[2 * i]
            },
    )
}

/// The top level: the level itself where it holds at most one digest, and
/// otherwise the top of the level above it.
pub open spec fn spec_reduce<T: ToHash>(level: Seq<T::Hash>) -> Seq<T::Hash>
    decreases level.len(),
{
    if level.len() <= 1 {
        level
    } else {
        spec_reduce::<T>(spec_next_level::<T>(level))
    }
}

/// The root of a tree with the given leaves.
pub open spec fn spec_root<T: ToHash>(leaves: Seq<T::Hash>) -> T::Hash
    recommends
        leaves.len() > 0,
{
    spec_reduce::<T>(leaves)[0]
}

/// What a proof extraction carries up the tree: the digest that is being
/// followed and the siblings met so far, lowest first.
pub struct Trail<T: ToHash> {
    pub target: T::Hash,
    pub path: Seq<T::Hash>,
}

/// The trail after one pair. A pair that holds the target gives its other
/// digest to the path, and the pair's parent becomes the target: one
/// sibling for each step up. Where both digests of the pair are the
/// target, the left one is taken to be it, and the right one is added.
pub open spec fn spec_add_to_path<T: ToHash>(
    trail: Trail<T>,
    left: T::Hash,
    right: T::Hash,
) -> Trail<T> {
    if left == trail.target {
        Trail { target: spec_combine::<T>(left, right), path: trail.path.push(right) }
    } else if right == trail.target {
        Trail { target: spec_combine::<T>(left, right), path: trail.path.push(left) }
    } else {
        trail
    }
}

/// The trail after the first `pairs` pairs of a level, taken from the left.
pub open spec fn spec_level_trail<T: ToHash>(
    level: Seq<T::Hash>,
    pairs: nat,
    trail: Trail<T>,
) -> Trail<T>
    decreases pairs,
{
    if pairs == 0 {
        trail
    } else {
        spec_add_to_path::<T>(
            spec_level_trail::<T>(level, (pairs - 1) as nat, trail),
            level[2 * (pairs - 1)],
            level[2 * (pairs - 1) + 1],
        )
    }
}

/// The trail after every level from the given one up to the top.
pub open spec fn spec_trail<T: ToHash>(level: Seq<T::Hash>, trail: Trail<T>) -> Trail<T>
    decreases level.len(),
{
    if level.len() <= 1 {
        trail
    } else {
        spec_trail::<T>(
            spec_next_level::<T>(level),
            spec_level_trail::<T>(level, level.len() / 2, trail),
        )
    }
}

/// The proof for a digest in a tree with the given leaves: the siblings met
/// when the digest is followed from the lowest level to the root. The
/// digest is found by its value, so of several equal leaves the leftmost
/// pair that holds one is taken.
pub open spec fn spec_proof<T: ToHash>(leaves: Seq<T::Hash>, leaf: T::Hash) -> Seq<T::Hash> {
    spec_trail::<T>(leaves, Trail { target: leaf, path: Seq::empty() }).path
}

/// The digest that a proof leads to: the start combined with each sibling
/// in turn, lowest first.
pub open spec fn spec_fold<T: ToHash>(start: T::Hash, siblings: Seq<T::Hash>) -> T::Hash
    decreases siblings.len(),
{
    if siblings.len() == 0 {
        start
    } else {
        spec_combine::<T>(spec_fold::<T>(start, siblings.drop_last()), siblings.last())
    }
}

} // verus!
