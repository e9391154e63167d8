//! Tracing of the file operations of a build: the inode table and request
//! decisions of a pass-through filesystem that records each operation, and the
//! causal filter that recovers from such a log the operations of one build's
//! process tree, in file order.
pub mod access;
pub mod tracer_fs;

pub mod text;
pub mod log_format;
pub mod lineage;
pub mod filter;
pub mod command;
