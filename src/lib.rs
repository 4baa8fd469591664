//! Binary Merkle trees over SHA-256: root construction, authentication
//! paths for single leaves, and their verification.
pub mod hasher;
pub mod tree;
pub mod laws;
