//! Summaries of a directory tree: one descriptor per entry, and file,
//! directory and byte totals folded lazily over the tree and cached.
pub mod digest;
pub mod file;
pub mod file_summary;
pub mod node_summary;
pub mod summary;
