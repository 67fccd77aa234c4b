//! Streaming building blocks for column selection, row filtering and
//! substitution over delimited tabular text.

pub mod columns;
pub mod error;
pub mod filter;
pub mod pattern;
pub mod projection;
pub mod substitution;
pub mod text;
