//! git-forge: issues and pull requests kept as event chains inside a Git repository.

pub mod calendar;
pub mod ci;
pub mod ci_laws;
pub mod cli;
pub mod cli_laws;
pub mod command_laws;
pub mod commands;
pub mod event;
pub mod fold_laws;
pub mod git;
pub mod git_laws;
pub mod identity;
pub mod json;
pub mod justfile_laws;
pub mod merge;
pub mod merge_laws;
pub mod messages;
pub mod oid;
pub mod page_laws;
pub mod parser;
pub mod passages;
pub mod records;
pub mod refs;
pub mod render;
pub mod roundtrip;
pub mod stamps;
pub mod store;
pub mod text;
pub mod transaction_laws;
pub mod transactions;
pub mod uuid;
pub mod wire_laws;
pub mod worktree;
