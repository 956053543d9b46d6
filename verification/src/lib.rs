//! A read-only Git explorer for tool-calling clients: repository selection,
//! commit-log and search selection, tree-diff summaries, and the parsing of
//! `git status` and `git blame` porcelain output, each with a stated contract.

pub mod blame;
pub mod diff;
pub mod error;
pub mod listing;
pub mod log;
pub mod server;
pub mod status;
pub mod text;
