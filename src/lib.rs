//! Reuse of `arbitrary`'s byte-to-value decoders as shrinkable generation
//! strategies for `proptest`.
//!
//! A value is decoded from a buffer of random bytes; shrinking re-decodes
//! ever shorter prefixes of that same buffer, with a single step of undo.
pub mod decode;
pub mod strategy;
pub mod tree;

pub use decode::{ArbInterop, DecodeError};
pub use strategy::{arb, arb_sized, size_for_hint, ArbStrategy, NewTreeError};
pub use tree::ArbValueTree;
