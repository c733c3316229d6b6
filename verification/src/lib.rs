//! Branch Deck core: the verified logic behind virtual branches built from
//! prefixed commits (naming, parsing of git output, grouping, integration
//! detection and history rewriting plans).

pub mod text;
pub mod model;
pub mod unicode;
pub mod model_config;
pub mod prompt;
pub mod model_utils;
pub mod number;
pub mod commit_list;
pub mod record_stream;
pub mod commit_grouper;
pub mod issue_reference;
pub mod git_executor;
pub mod integration;
pub mod detection;
pub mod archive;
pub mod branch_data;
pub mod branch_prefix;
pub mod rewrite;
pub mod reword;
pub mod tree_cache;
pub mod cherry_pick;
pub mod amend_conflict;
pub mod copy_commit;
pub mod sync;
pub mod download;
pub mod raw_git_format;
pub mod suggestion;
