//! SQL-facing helpers: predicate pushdown, result formatting, projection
//! checks, and host option types.

pub mod filter;
pub mod format;
pub mod binding;
pub mod host;
