//! Disk-usage statistics for the immediate children of a directory.
//!
//! The library holds the logic: the per-entry aggregation that a subtree
//! walk drives, the collection of per-child results, the progress bar and
//! the report table. Walking the file system, spawning workers and printing
//! are left to the caller, which feeds plain values in and takes text out.

pub mod aggregate;
pub mod collect;
pub mod format;
pub mod order;
pub mod progress;
pub mod report;
pub mod text;
