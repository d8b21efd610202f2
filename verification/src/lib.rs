//! Scoped, auditable access to local files for agent processes: the path
//! sandbox, the text and patch engines, and the decisions behind each tool.

pub mod activity;
pub mod archive;
pub mod changes;
pub mod config;
pub mod encoding;
pub mod file_filter;
pub mod folders;
pub mod grep;
pub mod listing;
pub mod names;
pub mod options;
pub mod order;
pub mod paging;
pub mod patch;
pub mod pattern;
pub mod reading;
pub mod sandbox;
pub mod search;
pub mod size;
pub mod text;
pub mod tools;
pub mod transport;
