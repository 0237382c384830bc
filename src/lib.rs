//! Paging, tailing and following of large, growing log files over a
//! memory-mapped view and an incrementally built line-offset index.

pub mod api;
pub mod file_id;
pub mod file_read_ops;
pub mod indexer;
pub mod laws;
pub mod line_index;
pub mod log_file;
pub mod mapping;
pub mod page_result;
pub mod shared;
pub mod text;
