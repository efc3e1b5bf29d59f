//! Hash functions of the SHA-3 family.

pub mod keccak256;
pub mod sha256;
pub mod sha512;
