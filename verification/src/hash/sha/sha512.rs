use crate::hash::bytes::{array_of, lemma_array_of_view};
use crate::hash::to_hash::ToHash;
use sha3::Digest;
use vstd::prelude::*;

verus! {

/// SHA3-512, with digests of 64 bytes.
pub struct Sha512 {}

/// The SHA3-512 digest of a byte string.
pub uninterp spec fn sha3_512_digest(input: Seq<u8>) -> Seq<u8>;

/// Calls `sha3::Sha3_512::digest`, the one-shot form of `new`, `update` and
/// `finalize`. Trusted: the 64 bytes that come back are a function of the
/// input bytes alone, named `sha3_512_digest`.
#[verifier::external_body]
fn sha3_512(value: &[u8]) -> (out: [u8; 64])
    ensures
        out@ == sha3_512_digest(value@),
{
    sha3::Sha3_512::digest(value).into()
}

impl ToHash for Sha512 {
    type Hash = [u8; 64];

    open spec fn digest_bytes(digest: [u8; 64]) -> Seq<u8> {
        digest@
    }

    open spec fn spec_hash(value: Seq<u8>) -> [u8; 64] {
        array_of::<64>(sha3_512_digest(value))
    }

    proof fn lemma_digest_bytes_injective(a: [u8; 64], b: [u8; 64]) {
        assert(a =~= b);
    }

    fn hash(value: &[u8]) -> (digest: [u8; 64]) {
        let digest = sha3_512(value);
        proof {
            lemma_array_of_view::<64>(digest);
        }
        digest
    }

    fn as_bytes(digest: &[u8; 64]) -> (bytes: &[u8]) {
        digest.as_slice()
    }
}

} // verus!
