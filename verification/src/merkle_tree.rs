use crate::error::tree_error::{
    leaf_empty_error, path_leaf_not_set_error, tree_empty_error, TreeError,
};
use crate::hash::to_hash::{digest_eq, ToHash};
use crate::reduction::{
    spec_add_to_path, spec_combine, spec_level_trail, spec_next_level, spec_proof, spec_reduce,
    spec_root, spec_trail, Trail,
};
use vstd::prelude::*;
use vstd::slice::slice_to_vec;

verus! {

pub type TreeResult<T> = Result<T, TreeError>;

/// An ordered sequence of leaf digests, from which roots and proofs are
/// computed. Queries read the leaves and never change them.
pub struct MerkleTree<T: ToHash> {
    leaves: Vec<T::Hash>,
}

impl<T: ToHash> View for MerkleTree<T> {
    type V = Seq<T::Hash>;

    closed spec fn view(&self) -> Seq<T::Hash> {
        self.leaves@
    }
}

/// Whether a reduction that may record a path is stopped by a missing
/// target: it records, no target is set, and there is a pair to look at.
pub open spec fn target_missing<T: ToHash>(
    leaves: Seq<T::Hash>,
    generate_path: bool,
    current_path_leaf: Option<T::Hash>,
) -> bool {
    generate_path && current_path_leaf is None && leaves.len() >= 2
}

/// Whether the target and the path after a step are those that the given
/// trail function yields: the trail's where a path is recorded and a
/// target is set, and the ones before the step otherwise.
pub open spec fn follows<T: ToHash>(
    generate_path: bool,
    current_path_leaf: Option<T::Hash>,
    path_before: Seq<T::Hash>,
    after: Trail<T>,
    target: Option<T::Hash>,
    path_after: Seq<T::Hash>,
) -> bool {
    if generate_path && current_path_leaf is Some {
        target == Some(after.target) && path_after == after.path
    } else {
        target == current_path_leaf && path_after == path_before
    }
}

impl<T: ToHash> MerkleTree<T> {
    /// A tree without leaves.
    pub fn new() -> (tree: Self)
        ensures
            tree@ == Seq::<T::Hash>::empty(),
    {
        Self { leaves: Vec::new() }
    }

    /// A tree with the given leaves, in their order.
    pub fn from_leaves(leaves: &[T::Hash]) -> (tree: Self)
        ensures
            tree@ == leaves@,
    {
        Self { leaves: slice_to_vec(leaves) }
    }

    /// Adds a leaf behind the others.
    pub fn append(&mut self, leaf: T::Hash)
        ensures
            final(self)@ == old(self)@.push(leaf),
    {
        self.leaves.push(leaf);
    }

    /// The root of the tree: `TreeEmpty` where it has no leaf, and otherwise
    /// the one digest that the levelwise reduction of the leaves ends in.
    pub fn root_hash(&self) -> (result: TreeResult<T::Hash>)
        ensures
            self@.len() == 0 ==> result is Err && result->Err_0@ == tree_empty_error(),
            self@.len() > 0 ==> result == Ok::<T::Hash, TreeError>(spec_root::<T>(self@)),
    {
        if self.leaves.is_empty() {
            return Err(TreeError::tree_empty());
        }
        let mut path: Vec<T::Hash> = Vec::new();
        match Self::reduce_tree(&self.leaves, false, None, &mut path) {
            Ok((top, _)) => {
                proof {
                    lemma_reduce_len::<T>(self@);
                }
                Ok(top[0])
            },
            Err(error) => Err(error),
        }
    }

    /// The proof for a digest: `TreeEmpty` where the tree has no leaf, and
    /// otherwise the siblings met when the digest is followed up the tree,
    /// lowest first, one for each pair it passes through. A digest that no
    /// pair holds has the empty proof.
    pub fn get_proof(&self, leaf: T::Hash) -> (result: TreeResult<Vec<T::Hash>>)
        ensures
            self@.len() == 0 ==> result is Err && result->Err_0@ == tree_empty_error(),
            self@.len() > 0 ==> result is Ok && result->Ok_0@ == spec_proof::<T>(self@, leaf),
    {
        if self.leaves.is_empty() {
            return Err(TreeError::tree_empty());
        }
        let mut path: Vec<T::Hash> = Vec::new();
        match Self::reduce_tree(&self.leaves, true, Some(leaf), &mut path) {
            Ok(_) => Ok(path),
            Err(error) => Err(error),
        }
    }

    /// Reduces a level to the top, one level after another, and records
    /// the target's siblings on the way where asked to. Fails with
    /// `PathLeafEmpty` exactly where a path is asked for, no target is set
    /// and the level has a pair; the path is then left as it was.
    pub fn reduce_tree(
        leaves: &Vec<T::Hash>,
        generate_path: bool,
        current_path_leaf: Option<T::Hash>,
        path: &mut Vec<T::Hash>,
    ) -> (result: TreeResult<(Vec<T::Hash>, Option<T::Hash>)>)
        ensures
            target_missing::<T>(leaves@, generate_path, current_path_leaf) ==> result is Err
                && result->Err_0@ == path_leaf_not_set_error() && final(path)@ == old(path)@,
            !target_missing::<T>(leaves@, generate_path, current_path_leaf) ==> result is Ok
                && result->Ok_0.0@ == spec_reduce::<T>(leaves@) && follows::<T>(
                generate_path,
                current_path_leaf,
                old(path)@,
                spec_trail::<T>(
                    leaves@,
                    Trail { target: current_path_leaf->Some_0, path: old(path)@ },
                ),
                result->Ok_0.1,
                final(path)@,
            ),
    {
        let ghost start = Trail::<T> { target: current_path_leaf->Some_0, path: path@ };
        let (mut level, mut target) = match Self::process_leaves_in_pairs(
            leaves,
            generate_path,
            current_path_leaf,
            path,
        ) {
            Ok(processed) => processed,
            Err(error) => {
                return Err(error);
            },
        };
        while level.len() > 1
            invariant
                !target_missing::<T>(leaves@, generate_path, current_path_leaf),
                spec_reduce::<T>(level@) == spec_reduce::<T>(leaves@),
                generate_path && current_path_leaf is Some ==> target is Some && spec_trail::<T>(
                    level@,
                    Trail { target: target->Some_0, path: path@ },
                ) == spec_trail::<T>(leaves@, start),
                !(generate_path && current_path_leaf is Some) ==> target == current_path_leaf
                    && path@ == start.path,
                !target_missing::<T>(level@, generate_path, target),
            decreases level@.len(),
        {
            let (next, next_target) = match Self::process_leaves_in_pairs(
                &level,
                generate_path,
                target,
                path,
            ) {
                Ok(processed) => processed,
                Err(error) => {
                    return Err(error);
                },
            };
            level = next;
            target = next_target;
        }
        Ok((level, target))
    }

    /// Builds the level above a level and, where asked to, lets each pair
    /// act on the target and the path. Fails with `PathLeafEmpty` exactly
    /// where a path is asked for, no target is set and the level has a
    /// pair; the path is then left as it was.
    pub fn process_leaves_in_pairs(
        leaves: &Vec<T::Hash>,
        generate_path: bool,
        current_path_leaf: Option<T::Hash>,
        path: &mut Vec<T::Hash>,
    ) -> (result: TreeResult<(Vec<T::Hash>, Option<T::Hash>)>)
        ensures
            target_missing::<T>(leaves@, generate_path, current_path_leaf) ==> result is Err
                && result->Err_0@ == path_leaf_not_set_error() && final(path)@ == old(path)@,
            !target_missing::<T>(leaves@, generate_path, current_path_leaf) ==> result is Ok
                && result->Ok_0.0@ == spec_next_level::<T>(leaves@) && follows::<T>(
                generate_path,
                current_path_leaf,
                old(path)@,
                spec_level_trail::<T>(
                    leaves@,
                    leaves@.len() / 2,
                    Trail { target: current_path_leaf->Some_0, path: old(path)@ },
                ),
                result->Ok_0.1,
                final(path)@,
            ),
    {
        let ghost start = Trail::<T> { target: current_path_leaf->Some_0, path: path@ };
        let ghost above = spec_next_level::<T>(leaves@);
        let pairs = leaves.len() / 2;
        let mut processed_leaves: Vec<T::Hash> = Vec::new();
        let mut target = current_path_leaf;
        let mut index: usize = 0;
        while index < pairs
            invariant
                leaves@.len() <= usize::MAX,
                start.path == old(path)@,
                pairs == leaves@.len() / 2,
                index <= pairs,
                above == spec_next_level::<T>(leaves@),
                processed_leaves@ == above.take(index as int),
                follows::<T>(
                    generate_path,
                    current_path_leaf,
                    start.path,
                    spec_level_trail::<T>(leaves@, index as nat, start),
                    target,
                    path@,
                ),
                index > 0 ==> !target_missing::<T>(leaves@, generate_path, current_path_leaf),
            decreases pairs - index,
        {
            let leaf_left = leaves[2 * index];
            let leaf_right = leaves[2 * index + 1];
            let combined_leaf = T::combine(leaf_left, leaf_right);
            processed_leaves.push(combined_leaf);
            assert(above.take(index + 1) =~= above.take(index as int).push(above[index as int]));
            if generate_path {
                target =
                match Self::add_to_path(target, path, leaf_left, leaf_right, combined_leaf) {
                    Ok(moved) => moved,
                    Err(error) => {
                        return Err(error);
                    },
                };
            }
            index += 1;
        }
        if leaves.len() % 2 == 1 {
            match leaves.as_slice().last() {
                Some(leaf) => {
                    processed_leaves.push(*leaf);
                    assert(above =~= above.take(index as int).push(above[index as int]));
                },
                None => {
                    return Err(TreeError::leaf_empty());
                },
            }
        } else {
            assert(above =~= above.take(index as int));
        }
        Ok((processed_leaves, target))
    }

    /// Lets one pair act on the target and the path. Fails with
    /// `PathLeafEmpty` exactly where no target is set, and then leaves the
    /// path as it was. Otherwise a pair that holds the target gives its
    /// other digest to the path, one digest whichever side the target is
    /// on, and its parent becomes the target.
    pub fn add_to_path(
        current_path_leaf: Option<T::Hash>,
        path: &mut Vec<T::Hash>,
        leaf_left: T::Hash,
        leaf_right: T::Hash,
        combined_leaf: T::Hash,
    ) -> (result: TreeResult<Option<T::Hash>>)
        requires
            combined_leaf == spec_combine::<T>(leaf_left, leaf_right),
        ensures
            current_path_leaf is None ==> result is Err && result->Err_0@
                == path_leaf_not_set_error() && final(path)@ == old(path)@,
            current_path_leaf matches Some(target) ==> {
                let after = spec_add_to_path::<T>(
                    Trail { target, path: old(path)@ },
                    leaf_left,
                    leaf_right,
                );
                result == Ok::<Option<T::Hash>, TreeError>(Some(after.target)) && final(path)@
                    == after.path
            },
    {
        let target = match current_path_leaf {
            Some(target) => target,
            None => {
                return Err(TreeError::path_leaf_not_set());
            },
        };
        if digest_eq::<T>(&leaf_left, &target) {
            path.push(leaf_right);
        } else if digest_eq::<T>(&leaf_right, &target) {
            path.push(leaf_left);
        } else {
            return Ok(Some(target));
        }
        Ok(Some(combined_leaf))
    }
}

impl<T: ToHash> Default for MerkleTree<T> {
    fn default() -> (tree: Self)
        ensures
            tree@ == Seq::<T::Hash>::empty(),
    {
        Self::new()
    }
}

/// The top of a level that is not empty is a single digest.
pub proof fn lemma_reduce_len<T: ToHash>(level: Seq<T::Hash>)
    requires
        level.len() > 0,
    ensures
        spec_reduce::<T>(level).len() == 1,
    decreases level.len(),
{
    if level.len() > 1 {
        lemma_reduce_len::<T>(spec_next_level::<T>(level));
    }
}

} // verus!
