use crate::error::tree_error::{proof_empty_error, TreeError};
use crate::hash::to_hash::{digest_eq, ToHash};
use crate::merkle_tree::TreeResult;
use crate::reduction::spec_fold;
use vstd::prelude::*;
use vstd::slice::slice_to_vec;

verus! {

/// The siblings of one leaf, lowest first, against which a claimed root
/// is checked.
pub struct MerkleProof<T: ToHash> {
    proof: Vec<T::Hash>,
}

impl<T: ToHash> View for MerkleProof<T> {
    type V = Seq<T::Hash>;

    closed spec fn view(&self) -> Seq<T::Hash> {
        self.proof@
    }
}

impl<T: ToHash> MerkleProof<T> {
    /// A verifier for the given siblings.
    pub fn new(proof: Vec<T::Hash>) -> (verifier: Self)
        ensures
            verifier@ == proof@,
    {
        Self { proof }
    }

    /// Whether the leaf, combined with each sibling in turn, gives the
    /// expected root.
    pub fn validate(&self, root_hash: T::Hash, leaf: T::Hash) -> (valid: bool)
        ensures
            valid == (spec_fold::<T>(leaf, self@) == root_hash),
    {
        let proof_root_hash = match self.reduce_proof(leaf) {
            Ok(hash) => hash,
            Err(_) => {
                return false;
            },
        };
        digest_eq::<T>(&root_hash, &proof_root_hash)
    }

    /// The digest that the proof leads to from the leaf.
    pub fn reduce_proof(&self, leaf: T::Hash) -> (result: TreeResult<T::Hash>)
        ensures
            result == Ok::<T::Hash, TreeError>(spec_fold::<T>(leaf, self@)),
    {
        let mut proof = slice_to_vec(self.proof.as_slice());
        proof.insert(0, leaf);
        assert(proof@.skip(1) =~= self@);
        Self::reduce_digests(&proof)
    }

    /// Combines the first digest with each of the others in turn. Fails
    /// with `ProofEmpty` exactly where there is no digest at all.
    pub fn reduce_digests(digests: &Vec<T::Hash>) -> (result: TreeResult<T::Hash>)
        ensures
            digests@.len() == 0 ==> result is Err && result->Err_0@ == proof_empty_error(),
            digests@.len() > 0 ==> result == Ok::<T::Hash, TreeError>(
                spec_fold::<T>(digests@[0], digests@.skip(1)),
            ),
    {
        if digests.len() == 0 {
            return Err(TreeError::proof_empty());
        }
        let mut folded = digests[0];
        let mut index: usize = 1;
        while index < digests.len()
            invariant
                1 <= index <= digests@.len(),
                folded == spec_fold::<T>(digests@[0], digests@.subrange(1, index as int)),
            decreases digests@.len() - index,
        {
            assert(digests@.subrange(1, index + 1).drop_last() =~= digests@.subrange(
                1,
                index as int,
            ));
            folded = T::combine(folded, digests[index]);
            index += 1;
        }
        assert(digests@.subrange(1, index as int) =~= digests@.skip(1));
        Ok(folded)
    }
}

} // verus!
