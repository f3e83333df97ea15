//! The shape of the branch metadata a catalog's hosting service answers
//! with: only the commit hash is read, as the freshness marker.

use vstd::prelude::*;

verus! {

/// The commit part of a branch answer.
#[derive(PartialEq, Eq, Clone, Debug)]
pub struct GithubCommitData {
    pub sha: String,
}

/// A branch answer: the commit it points at.
#[derive(PartialEq, Eq, Clone, Debug)]
pub struct GithubBranchData {
    pub commit: GithubCommitData,
}

impl GithubBranchData {
    /// The freshness marker carried by a branch answer.
    pub fn marker(self) -> (r: String)
        ensures
            r == self.commit.sha,
    {
        self.commit.sha
    }
}

} // verus!
