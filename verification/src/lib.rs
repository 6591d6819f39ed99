//! Typed columnar decoding for numerical-series data.
//!
//! The crate turns dynamically-typed columnar batches into strongly-typed
//! domain records: series of partial sums, the acceleration methods applied
//! to them, and the exact-magnitude decimal numbers both carry.  Columns may
//! arrive in several physical encodings for the same logical type, or as
//! untyped all-null placeholders; the extractors accept all of them
//! uniformly and fail loudly on anything else.

pub mod assemble;
pub mod bridge;
pub mod column;
pub mod decode;
pub mod error;
pub mod extract;
pub mod filters;
pub mod lines;
pub mod metadata;
pub mod records;
pub mod scientific;
