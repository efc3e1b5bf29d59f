//! Merkle trees over pluggable hash functions: root digests, membership
//! proofs and their validation, with the reduction and the combine rule
//! stated as specifications and proved.

pub mod error;
pub mod hash;
pub mod merkle_proof;
pub mod merkle_tree;
pub mod reduction;
pub mod theorems;
pub mod utils;

pub use crate::hash::to_hash::ToHash;
pub use crate::hash::Keccak256;
pub use crate::hash::Sha256;
pub use crate::hash::Sha512;
pub use crate::merkle_proof::MerkleProof;
pub use crate::merkle_tree::MerkleTree;

use vstd::prelude::*;

verus! {

pub type Keccak256Tree = MerkleTree<Keccak256>;

pub type Keccak256Proof = MerkleProof<Keccak256>;

pub type Sha256Tree = MerkleTree<Sha256>;

pub type Sha256Proof = MerkleProof<Sha256>;

pub type Sha512Tree = MerkleTree<Sha512>;

pub type Sha512Proof = MerkleProof<Sha512>;

} // verus!
