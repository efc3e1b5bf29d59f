//! The capability that a tree asks of a hash function.

use crate::hash::bytes::{bytes_eq, combine_input, spec_combine_input};
use vstd::prelude::*;

verus! {

/// A hash function with digests that can be copied and read as bytes.
///
/// Digests are compared and ordered by their bytes, so an implementation
/// states what those bytes are and shows that they identify the digest.
pub trait ToHash {
    type Hash: Copy;

    /// The bytes of a digest.
    spec fn digest_bytes(digest: Self::Hash) -> Seq<u8>;

    /// The digest of a byte string.
    spec fn spec_hash(value: Seq<u8>) -> Self::Hash;

    /// Digests with the same bytes are the same digest.
    proof fn lemma_digest_bytes_injective(a: Self::Hash, b: Self::Hash)
        requires
            Self::digest_bytes(a) == Self::digest_bytes(b),
        ensures
            a == b,
    ;

    /// Hashes a byte string. The result depends on the bytes alone.
    fn hash(value: &[u8]) -> (digest: Self::Hash)
        ensures
            digest == Self::spec_hash(value@),
    ;

    /// Reads a digest as bytes.
    fn as_bytes(digest: &Self::Hash) -> (bytes: &[u8])
        ensures
            bytes@ == Self::digest_bytes(*digest),
    ;

    /// Merges two digests into their parent: the hash of the greater one's
    /// bytes followed by the lesser one's, whichever side each came from.
    fn combine(left: Self::Hash, right: Self::Hash) -> (digest: Self::Hash)
        ensures
            digest == Self::spec_hash(
                spec_combine_input(Self::digest_bytes(left), Self::digest_bytes(right)),
            ),
    {
        let input = combine_input(Self::as_bytes(&left), Self::as_bytes(&right));
        Self::hash(input.as_slice())
    }
}

/// Whether two digests are the same.
pub fn digest_eq<T: ToHash>(a: &T::Hash, b: &T::Hash) -> (same: bool)
    ensures
        same == (*a == *b),
{
    let same = bytes_eq(T::as_bytes(a), T::as_bytes(b));
    proof {
        if same {
            T::lemma_digest_bytes_injective(*a, *b);
        }
    }
    same
}

} // verus!
