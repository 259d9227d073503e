//! Plain data about a repository, as the rest of the crate reads it.
use vstd::prelude::*;

verus! {

/// A commit as loaded once at the start of a session: ids as hexadecimal text, the time as
/// seconds since the Unix epoch.
#[derive(Debug, Clone)]
pub struct CommitInfo {
    pub id: String,
    pub short_id: String,
    pub message: String,
    pub author: String,
    pub time: i64,
    pub parents: Vec<String>,
}

impl CommitInfo {
    /// A merge commit has more than one parent.
    pub fn is_merge(&self) -> (r: bool)
        ensures
            r == (self.parents@.len() > 1),
    {
        self.parents.len() > 1
    }
}

#[derive(Debug, Clone)]
pub struct UpstreamInfo {
    pub name: String,
    pub ahead: usize,
    pub behind: usize,
}

#[derive(Debug, Clone)]
pub struct WorkingTreeStatus {
    pub staged: usize,
    pub modified: usize,
    pub untracked: usize,
    pub conflicted: usize,
}

impl WorkingTreeStatus {
    pub fn is_clean(&self) -> (r: bool)
        ensures
            r == (self.staged == 0 && self.modified == 0 && self.untracked == 0
                && self.conflicted == 0),
    {
        self.staged == 0 && self.modified == 0 && self.untracked == 0 && self.conflicted == 0
    }

    /// Staged and modified files together, saturating at the largest `usize`.
    pub fn total_changes(&self) -> (r: usize)
        ensures
            r == if self.staged + self.modified <= usize::MAX {
                (self.staged + self.modified) as usize
            } else {
                usize::MAX
            },
    {
        self.staged.saturating_add(self.modified)
    }
}

#[derive(Debug, Clone)]
pub struct StashInfo {
    pub index: usize,
    pub message: String,
}

} // verus!
