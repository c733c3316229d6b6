//! Branch-name suggestions: what is asked for, what comes back, and the
//! progress events reported while suggestions are generated.

use vstd::prelude::*;
use crate::model::CommitInfo;

verus! {

/// A suggested branch name, with an optional reason.
#[derive(Debug, Clone)]
pub struct BranchSuggestion {
    pub name: String,
    pub reason: Option<String>,
}

/// Progress events of suggestion generation.
#[derive(Debug, Clone)]
pub enum SuggestionProgress {
    Started { total: u32 },
    SuggestionReady { suggestion: BranchSuggestion, index: u32 },
    Completed,
    Cancelled,
    Error { message: String },
    ModelDownloadInProgress { model_name: String, model_size: String },
}

/// A request for branch-name suggestions for some commits.
#[derive(Debug)]
pub struct SuggestBranchNameParams {
    pub repository_path: String,
    pub branch_prefix: String,
    pub commits: Vec<CommitInfo>,
}

/// A generated branch name and how long generating it took.
#[derive(Debug, Clone)]
pub struct BranchNameResult {
    pub name: String,
    pub generation_time_ms: u64,
}

} // verus!
