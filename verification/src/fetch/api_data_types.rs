//! Records that the remote service returns about projects and branches.

use vstd::prelude::*;

verus! {

/// A project of the service.
#[derive(Debug, Clone)]
pub struct Project {
    pub id: String,
    pub created: String,
    pub default_branch: DefaultBranch,
    pub description: Option<String>,
    pub name: String,
}

/// The branch that a project takes where none is named.
#[derive(Debug, Clone)]
pub struct DefaultBranch {
    pub id: String,
}

/// A branch of a project.
#[derive(Debug, Clone)]
pub struct Branch {
    pub id: String,
    pub created: String,
    pub head: BranchHead,
    pub name: String,
    pub owning_project: OwningProject,
    pub referenced_commit: ReferencedCommit,
}

/// The commit at the head of a branch.
#[derive(Debug, Clone)]
pub struct BranchHead {
    pub id: String,
}

/// The project that a branch belongs to.
#[derive(Debug, Clone)]
pub struct OwningProject {
    pub id: String,
}

/// The commit that a branch refers to.
#[derive(Debug, Clone)]
pub struct ReferencedCommit {
    pub id: String,
}

} // verus!
