//! A filesystem-traversal engine: given a root directory, it enumerates
//! entries (or aggregates counts and sizes) under configurable filters,
//! depth and count limits, delivering results incrementally and supporting
//! cooperative cancellation.
//!
//! The engine itself never touches the filesystem: a driver reads each
//! directory the engine asks for and feeds the listing back as plain
//! values, so every filtering, limiting and bookkeeping decision is made
//! here, under contract.

pub mod channel;
pub mod count;
pub mod filter;
pub mod glob;
pub mod laws;
pub mod scandir;
pub mod types;
pub mod walk;