//! What a caller selects: a project, and a commit of it.

use vstd::prelude::*;

verus! {

/// How the project to fetch is named.
#[derive(Debug, Clone)]
pub enum ProjectSelector {
    /// Select an identified project
    ProjectId {
        /// The project ID
        project_id: String,
        commit: CommitSelector,
    },
    /// Select a named project
    ProjectName {
        /// The project name, or the beginning of it
        project_name: String,
        commit: CommitSelector,
    },
}

/// How the commit to fetch is named.
#[derive(Debug, Clone)]
pub enum CommitSelector {
    /// Select an identified commit
    CommitId { commit_id: String },
    /// Select the latest commit from an identified branch
    BranchId { branch_id: String },
    /// Select the latest commit from a named branch
    BranchName { branch_name: String },
    /// Select the latest commit from the default branch
    DefaultBranch,
}

} // verus!
