//! Shared foundation primitives used across every layer: typed identifiers,
//! the string helpers they are built from, and why their text sorts the way
//! the store relies on.

pub mod hex_order;
pub mod id;
pub mod sort;
pub mod text;
