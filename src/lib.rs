//! Disk usage of a file or directory tree: the per-directory totals of a
//! recursive walk, and the line that reports a size in readable units.

pub mod aggregate;
pub mod format;
