//! Failures that tree and proof operations can report.

pub mod tree_error;
