//! Organize files into year-based folders keyed by modification time.
//!
//! The library models a single depth-first walk of a directory tree as a
//! stream of events, accumulates matched files into batches keyed by
//! directory depth, computes one representative timestamp per batch, and
//! plans the moves of each batch into `<output>/<year>/<stripped path>`.

pub mod batch;
pub mod filter;
pub mod laws;
pub mod mtime;
pub mod plan;
pub mod year;

pub use mtime::AgePolicy;
pub use mtime::Mtime;
