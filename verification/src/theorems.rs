//! What holds of roots, proofs and their validation, proved from the
//! definitions of the reduction.

use crate::hash::bytes::lemma_combine_input_symmetric;
use crate::hash::to_hash::ToHash;
use crate::reduction::{
    spec_add_to_path, spec_combine, spec_fold, spec_level_trail, spec_next_level, spec_proof,
    spec_reduce, spec_root, spec_trail, Trail,
};
use vstd::prelude::*;

verus! {

/// Combining does not depend on the order of the two digests.
pub proof fn lemma_combine_commutative<T: ToHash>(a: T::Hash, b: T::Hash)
    ensures
        spec_combine::<T>(a, b) == spec_combine::<T>(b, a),
{
    lemma_combine_input_symmetric(T::digest_bytes(a), T::digest_bytes(b));
}

/// A tree with one leaf has that leaf as its root, and the empty proof for
/// every digest.
pub proof fn lemma_single_leaf<T: ToHash>(only: T::Hash, leaf: T::Hash)
    ensures
        spec_root::<T>(seq![only]) == only,
        spec_proof::<T>(seq![only], leaf) == Seq::<T::Hash>::empty(),
{
}

/// The level above two digests is their parent alone.
proof fn lemma_next_level_of_two<T: ToHash>(a: T::Hash, b: T::Hash)
    ensures
        spec_next_level::<T>(seq![a, b]) == seq![spec_combine::<T>(a, b)],
{
    assert(spec_next_level::<T>(seq![a, b]) =~= seq![spec_combine::<T>(a, b)]);
}

/// The level above three digests: the parent of the first two, then the
/// third as it is.
proof fn lemma_next_level_of_three<T: ToHash>(a: T::Hash, b: T::Hash, c: T::Hash)
    ensures
        spec_next_level::<T>(seq![a, b, c]) == seq![spec_combine::<T>(a, b), c],
{
    assert(spec_next_level::<T>(seq![a, b, c]) =~= seq![spec_combine::<T>(a, b), c]);
}

/// The root of two leaves is their parent.
proof fn lemma_root_of_two<T: ToHash>(a: T::Hash, b: T::Hash)
    ensures
        spec_reduce::<T>(seq![a, b]) == seq![spec_combine::<T>(a, b)],
{
    lemma_next_level_of_two::<T>(a, b);
    assert(spec_reduce::<T>(seq![spec_combine::<T>(a, b)]) == seq![spec_combine::<T>(a, b)]);
}

/// With three leaves the third is carried up one level: the root is the
/// parent of the first two leaves, combined with the third.
pub proof fn lemma_three_leaves_root<T: ToHash>(a: T::Hash, b: T::Hash, c: T::Hash)
    ensures
        spec_root::<T>(seq![a, b, c]) == spec_combine::<T>(spec_combine::<T>(a, b), c),
{
    lemma_next_level_of_three::<T>(a, b, c);
    lemma_root_of_two::<T>(spec_combine::<T>(a, b), c);
}

/// With three leaves, the proof for the first is the second leaf and then
/// the third.
pub proof fn lemma_three_leaves_proof_of_first<T: ToHash>(a: T::Hash, b: T::Hash, c: T::Hash)
    ensures
        spec_proof::<T>(seq![a, b, c], a) == seq![b, c],
{
    let leaves = seq![a, b, c];
    let parent = spec_combine::<T>(a, b);
    let start = Trail::<T> { target: a, path: Seq::empty() };
    lemma_next_level_of_three::<T>(a, b, c);
    lemma_next_level_of_two::<T>(parent, c);
    assert(spec_level_trail::<T>(leaves, 0, start) == start);
    let first = spec_level_trail::<T>(leaves, 1, start);
    assert(first == spec_add_to_path::<T>(start, a, b));
    assert(first.path =~= seq![b]);
    let above = seq![parent, c];
    assert(spec_level_trail::<T>(above, 0, first) == first);
    let second = spec_level_trail::<T>(above, 1, first);
    assert(second == spec_add_to_path::<T>(first, parent, c));
    assert(second.path =~= seq![b, c]);
    assert(spec_trail::<T>(leaves, start) == spec_trail::<T>(above, first));
    assert(spec_trail::<T>(above, first) == spec_trail::<T>(
        seq![spec_combine::<T>(parent, c)],
        second,
    ));
}

/// With three leaves, the proof for the third is the parent of the first
/// two, as long as the third leaf differs from both: a digest is followed
/// from the leftmost pair that holds it.
pub proof fn lemma_three_leaves_proof_of_third<T: ToHash>(a: T::Hash, b: T::Hash, c: T::Hash)
    requires
        c != a,
        c != b,
    ensures
        spec_proof::<T>(seq![a, b, c], c) == seq![spec_combine::<T>(a, b)],
{
    let leaves = seq![a, b, c];
    let parent = spec_combine::<T>(a, b);
    let start = Trail::<T> { target: c, path: Seq::empty() };
    lemma_next_level_of_three::<T>(a, b, c);
    lemma_next_level_of_two::<T>(parent, c);
    assert(spec_level_trail::<T>(leaves, 0, start) == start);
    let first = spec_level_trail::<T>(leaves, 1, start);
    assert(first == spec_add_to_path::<T>(start, a, b));
    assert(first == start);
    let above = seq![parent, c];
    assert(spec_level_trail::<T>(above, 0, first) == first);
    let second = spec_level_trail::<T>(above, 1, first);
    assert(second == spec_add_to_path::<T>(first, parent, c));
    assert(second.path =~= seq![parent]);
    assert(spec_trail::<T>(leaves, start) == spec_trail::<T>(above, first));
    assert(spec_trail::<T>(above, first) == spec_trail::<T>(
        seq![spec_combine::<T>(parent, c)],
        second,
    ));
}

/// With five leaves the fifth is carried up two levels: the first four
/// reduce to one digest, which is then combined with the fifth.
pub proof fn lemma_five_leaves_root<T: ToHash>(leaves: Seq<T::Hash>)
    requires
        leaves.len() == 5,
    ensures
        spec_root::<T>(leaves) == spec_combine::<T>(
            spec_combine::<T>(
                spec_combine::<T>(leaves[0], leaves[1]),
                spec_combine::<T>(leaves[2], leaves[3]),
            ),
            leaves[4],
        ),
{
    let left = spec_combine::<T>(leaves[0], leaves[1]);
    let right = spec_combine::<T>(leaves[2], leaves[3]);
    assert(spec_next_level::<T>(leaves) =~= seq![left, right, leaves[4]]);
    lemma_three_leaves_root::<T>(left, right, leaves[4]);
}

/// Whether a trail's path leads from the leaf to the trail's target.
pub open spec fn spec_leads<T: ToHash>(leaf: T::Hash, trail: Trail<T>) -> bool {
    spec_fold::<T>(leaf, trail.path) == trail.target
}

/// A path that leads to the target still does after a pair.
proof fn lemma_pair_keeps_lead<T: ToHash>(
    leaf: T::Hash,
    trail: Trail<T>,
    left: T::Hash,
    right: T::Hash,
)
    requires
        spec_leads::<T>(leaf, trail),
    ensures
        spec_leads::<T>(leaf, spec_add_to_path::<T>(trail, left, right)),
{
    let after = spec_add_to_path::<T>(trail, left, right);
    if left == trail.target {
        assert(after.path.drop_last() =~= trail.path);
    } else if right == trail.target {
        assert(after.path.drop_last() =~= trail.path);
        lemma_combine_commutative::<T>(left, right);
    }
}

/// After some pairs of a level the path still leads to the target, and the
/// target is either a digest of the level above that those pairs made, or
/// unchanged and still ahead in the level.
proof fn lemma_level_keeps_lead<T: ToHash>(
    leaf: T::Hash,
    level: Seq<T::Hash>,
    pairs: nat,
    trail: Trail<T>,
)
    requires
        pairs <= level.len() / 2,
        level.contains(trail.target),
        spec_leads::<T>(leaf, trail),
    ensures
        spec_leads::<T>(leaf, spec_level_trail::<T>(level, pairs, trail)),
        ({
            let after = spec_level_trail::<T>(level, pairs, trail);
            ||| exists|i: int|
                0 <= i < pairs && #[trigger] spec_next_level::<T>(level)[i] == after.target
            ||| after.target == trail.target && exists|j: int|
                2 * pairs <= j < level.len() && #[trigger] level[j] == trail.target
        }),
    decreases pairs,
{
    if pairs == 0 {
        let j = choose|j: int| 0 <= j < level.len() && level[j] == trail.target;
        assert(2 * pairs <= j < level.len() && level[j] == trail.target);
    } else {
        let done = (pairs - 1) as nat;
        let before = spec_level_trail::<T>(level, done, trail);
        let left = level[2 * (pairs - 1)];
        let right = level[2 * (pairs - 1) + 1];
        let after = spec_level_trail::<T>(level, pairs, trail);
        lemma_level_keeps_lead::<T>(leaf, level, done, trail);
        lemma_pair_keeps_lead::<T>(leaf, before, left, right);
        if left == before.target || right == before.target {
            assert(spec_next_level::<T>(level)[done as int] == after.target);
        } else if exists|i: int|
            0 <= i < done && #[trigger] spec_next_level::<T>(level)[i] == before.target {
            let i = choose|i: int|
                0 <= i < done && #[trigger] spec_next_level::<T>(level)[i] == before.target;
            assert(0 <= i < pairs && spec_next_level::<T>(level)[i] == after.target);
        } else {
            let j = choose|j: int|
                2 * done <= j < level.len() && #[trigger] level[j] == trail.target;
            assert(2 * pairs <= j < level.len() && level[j] == trail.target);
        }
    }
}

/// After a whole level the target is a digest of the level above.
proof fn lemma_target_moves_up<T: ToHash>(leaf: T::Hash, level: Seq<T::Hash>, trail: Trail<T>)
    requires
        level.contains(trail.target),
        spec_leads::<T>(leaf, trail),
    ensures
        spec_leads::<T>(leaf, spec_level_trail::<T>(level, level.len() / 2, trail)),
        spec_next_level::<T>(level).contains(
            spec_level_trail::<T>(level, level.len() / 2, trail).target,
        ),
{
    let pairs = level.len() / 2;
    let above = spec_next_level::<T>(level);
    let after = spec_level_trail::<T>(level, pairs, trail);
    lemma_level_keeps_lead::<T>(leaf, level, pairs, trail);
    if exists|i: int| 0 <= i < pairs && #[trigger] above[i] == after.target {
        let i = choose|i: int| 0 <= i < pairs && #[trigger] above[i] == after.target;
        assert(above[i] == after.target);
    } else {
        let j = choose|j: int| 2 * pairs <= j < level.len() && #[trigger] level[j] == trail.target;
        assert(above[pairs as int] == level[j]);
    }
}

/// From any level up, a path that leads to a digest of the level ends at
/// the root.
proof fn lemma_trail_reaches_root<T: ToHash>(leaf: T::Hash, level: Seq<T::Hash>, trail: Trail<T>)
    requires
        level.contains(trail.target),
        spec_leads::<T>(leaf, trail),
    ensures
        spec_fold::<T>(leaf, spec_trail::<T>(level, trail).path) == spec_root::<T>(level),
    decreases level.len(),
{
    if level.len() > 1 {
        lemma_target_moves_up::<T>(leaf, level, trail);
        lemma_trail_reaches_root::<T>(
            leaf,
            spec_next_level::<T>(level),
            spec_level_trail::<T>(level, level.len() / 2, trail),
        );
    }
}

/// The proof that a tree gives for one of its leaves leads from that leaf
/// to the tree's root, so it validates against the root. This holds of
/// every tree and every leaf, equal leaves included.
pub proof fn lemma_proof_validates<T: ToHash>(leaves: Seq<T::Hash>, leaf: T::Hash)
    requires
        leaves.contains(leaf),
    ensures
        spec_fold::<T>(leaf, spec_proof::<T>(leaves, leaf)) == spec_root::<T>(leaves),
{
    lemma_trail_reaches_root::<T>(leaf, leaves, Trail { target: leaf, path: Seq::empty() });
}

/// Two different unordered pairs of digests with the same parent.
pub open spec fn spec_collision<T: ToHash>(
    a: T::Hash,
    b: T::Hash,
    c: T::Hash,
    d: T::Hash,
) -> bool {
    &&& spec_combine::<T>(a, b) == spec_combine::<T>(c, d)
    &&& !(a == c && b == d)
    &&& !(a == d && b == c)
}

/// Whether combining collides somewhere.
pub open spec fn spec_collides<T: ToHash>() -> bool {
    exists|a: T::Hash, b: T::Hash, c: T::Hash, d: T::Hash| spec_collision::<T>(a, b, c, d)
}

/// Two folds over the same siblings from different starts end in different
/// digests, unless combining collides.
pub proof fn lemma_altered_leaf<T: ToHash>(leaf: T::Hash, other: T::Hash, siblings: Seq<T::Hash>)
    requires
        leaf != other,
    ensures
        spec_fold::<T>(other, siblings) != spec_fold::<T>(leaf, siblings) || spec_collides::<T>(),
    decreases siblings.len(),
{
    if siblings.len() > 0 {
        lemma_altered_leaf::<T>(leaf, other, siblings.drop_last());
        let one = spec_fold::<T>(leaf, siblings.drop_last());
        let two = spec_fold::<T>(other, siblings.drop_last());
        if one != two && spec_fold::<T>(other, siblings) == spec_fold::<T>(leaf, siblings) {
            assert(spec_collision::<T>(one, siblings.last(), two, siblings.last()));
        }
    }
}

/// A proof in which one sibling is replaced by another digest leads to a
/// different digest than the proof itself, unless combining collides. So
/// where the proof validates against a root, the altered one does not.
pub proof fn lemma_altered_sibling<T: ToHash>(
    leaf: T::Hash,
    siblings: Seq<T::Hash>,
    index: int,
    other: T::Hash,
)
    requires
        0 <= index < siblings.len(),
        other != siblings[index],
    ensures
        spec_fold::<T>(leaf, siblings.update(index, other)) != spec_fold::<T>(leaf, siblings)
            || spec_collides::<T>(),
    decreases siblings.len(),
{
    let altered = siblings.update(index, other);
    if index == siblings.len() - 1 {
        assert(altered.drop_last() =~= siblings.drop_last());
        let below = spec_fold::<T>(leaf, siblings.drop_last());
        if spec_fold::<T>(leaf, altered) == spec_fold::<T>(leaf, siblings) {
            assert(spec_collision::<T>(below, other, below, siblings[index]));
        }
    } else {
        assert(altered.drop_last() =~= siblings.drop_last().update(index, other));
        lemma_altered_sibling::<T>(leaf, siblings.drop_last(), index, other);
        let one = spec_fold::<T>(leaf, siblings.drop_last());
        let two = spec_fold::<T>(leaf, altered.drop_last());
        if one != two && spec_fold::<T>(leaf, altered) == spec_fold::<T>(leaf, siblings) {
            assert(spec_collision::<T>(two, siblings.last(), one, siblings.last()));
        }
    }
}

/// Whether a digest stands in the tree above the given level: in the
/// level itself or in one of the levels over it.
pub open spec fn spec_in_tree<T: ToHash>(level: Seq<T::Hash>, digest: T::Hash) -> bool
    decreases level.len(),
{
    level.contains(digest) || (level.len() > 1 && spec_in_tree::<T>(
        spec_next_level::<T>(level),
        digest,
    ))
}

/// Whether one of the leaves is the parent of some two digests. Such a
/// leaf can be taken for an inner digest of a larger tree.
pub open spec fn spec_leaf_is_parent<T: ToHash>(leaves: Seq<T::Hash>) -> bool {
    exists|a: T::Hash, b: T::Hash| leaves.contains(#[trigger] spec_combine::<T>(a, b))
}

/// The root stands in the tree.
proof fn lemma_root_in_tree<T: ToHash>(level: Seq<T::Hash>)
    requires
        level.len() > 0,
    ensures
        spec_in_tree::<T>(level, spec_root::<T>(level)),
    decreases level.len(),
{
    if level.len() > 1 {
        lemma_root_in_tree::<T>(spec_next_level::<T>(level));
    } else {
        assert(level[0] == spec_root::<T>(level));
    }
}

/// A parent that stands in the tree has each of the two digests it was
/// claimed to come from in the tree as well, unless combining collides or
/// the parent is one of the digests of the lowest level.
proof fn lemma_parent_in_tree<T: ToHash>(level: Seq<T::Hash>, child: T::Hash, sibling: T::Hash)
    requires
        spec_in_tree::<T>(level, spec_combine::<T>(child, sibling)),
    ensures
        spec_in_tree::<T>(level, child) || spec_collides::<T>() || level.contains(
            spec_combine::<T>(child, sibling),
        ),
    decreases level.len(),
{
    let parent = spec_combine::<T>(child, sibling);
    if !level.contains(parent) {
        let above = spec_next_level::<T>(level);
        lemma_parent_in_tree::<T>(above, child, sibling);
        if above.contains(parent) {
            let i = choose|i: int| 0 <= i < above.len() && above[i] == parent;
            if 2 * i + 1 < level.len() {
                let left = level[2 * i];
                let right = level[2 * i + 1];
                if left == child || right == child {
                    assert(level.contains(child));
                } else {
                    assert(spec_collision::<T>(left, right, child, sibling));
                }
            } else {
                assert(level[2 * i] == parent);
            }
        }
    }
}

/// A digest from which siblings lead to a digest of the tree stands in
/// the tree itself, unless combining collides or a leaf is a parent.
proof fn lemma_fold_into_tree<T: ToHash>(
    leaves: Seq<T::Hash>,
    digest: T::Hash,
    siblings: Seq<T::Hash>,
)
    requires
        spec_in_tree::<T>(leaves, spec_fold::<T>(digest, siblings)),
    ensures
        spec_in_tree::<T>(leaves, digest) || spec_collides::<T>() || spec_leaf_is_parent::<T>(
            leaves,
        ),
    decreases siblings.len(),
{
    if siblings.len() > 0 {
        let below = spec_fold::<T>(digest, siblings.drop_last());
        lemma_parent_in_tree::<T>(leaves, below, siblings.last());
        if spec_in_tree::<T>(leaves, below) {
            lemma_fold_into_tree::<T>(leaves, digest, siblings.drop_last());
        } else if !spec_collides::<T>() {
            assert(leaves.contains(spec_combine::<T>(below, siblings.last())));
        }
    }
}

/// A digest that validates against the root of a tree stands in that
/// tree, as a leaf or as a digest of a higher level, unless combining
/// collides or a leaf is a parent. A digest from outside the tree is
/// therefore refused but for such coincidences of the hash function.
pub proof fn lemma_validated_digest_in_tree<T: ToHash>(
    leaves: Seq<T::Hash>,
    digest: T::Hash,
    siblings: Seq<T::Hash>,
)
    requires
        leaves.len() > 0,
        spec_fold::<T>(digest, siblings) == spec_root::<T>(leaves),
    ensures
        spec_in_tree::<T>(leaves, digest) || spec_collides::<T>() || spec_leaf_is_parent::<T>(
            leaves,
        ),
{
    lemma_root_in_tree::<T>(leaves);
    lemma_fold_into_tree::<T>(leaves, digest, siblings);
}

} // verus!
