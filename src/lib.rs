//! Parsing primitives over an incremental byte cursor: an ordered-alternation
//! engine that tells definite mismatches from missing input, a multi-byte
//! needle search, fixed-width readers and a small path accessor.
pub mod branch;
pub mod codec;
pub mod cursor;
pub mod path;
pub mod pattern;
