//! The hash capability and the hash functions that come with the library.

pub mod bytes;
pub mod sha;
pub mod to_hash;

pub use sha::keccak256::Keccak256;
pub use sha::sha256::Sha256;
pub use sha::sha512::Sha512;
