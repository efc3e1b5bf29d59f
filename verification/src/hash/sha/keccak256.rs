use crate::hash::bytes::{array_of, lemma_array_of_view};
use crate::hash::to_hash::ToHash;
use sha3::Digest;
use vstd::prelude::*;

verus! {

/// Keccak-256, with digests of 32 bytes.
pub struct Keccak256 {}

/// The Keccak-256 digest of a byte string.
pub uninterp spec fn keccak_256_digest(input: Seq<u8>) -> Seq<u8>;

/// Calls `sha3::Keccak256::digest`, the one-shot form of `new`, `update` and
/// `finalize`. Trusted: the 32 bytes that come back are a function of the
/// input bytes alone, named `keccak_256_digest`.
#[verifier::external_body]
fn keccak_256(value: &[u8]) -> (out: [u8; 32])
    ensures
        out@ == keccak_256_digest(value@),
{
    sha3::Keccak256::digest(value).into()
}

impl ToHash for Keccak256 {
    type Hash = [u8; 32];

    open spec fn digest_bytes(digest: [u8; 32]) -> Seq<u8> {
        digest@
    }

    open spec fn spec_hash(value: Seq<u8>) -> [u8; 32] {
        array_of::<32>(keccak_256_digest(value))
    }

    proof fn lemma_digest_bytes_injective(a: [u8; 32], b: [u8; 32]) {
        assert(a =~= b);
    }

    fn hash(value: &[u8]) -> (digest: [u8; 32]) {
        let digest = keccak_256(value);
        proof {
            lemma_array_of_view::<32>(digest);
        }
        digest
    }

    fn as_bytes(digest: &[u8; 32]) -> (bytes: &[u8]) {
        digest.as_slice()
    }
}

} // verus!
