//! The errors of planning and executing a rewrite.
use vstd::prelude::*;

use crate::text::push_str;

verus! {

#[derive(Debug, Clone)]
pub enum CraftError {
    /// HEAD does not point at a branch.
    DetachedHead,
    /// The working tree or the index holds uncommitted changes.
    DirtyWorkingTree,
    /// The branch has no commits to plan on.
    NoCommits,
    /// A squash or fixup of the commit at this position names that same commit.
    SelfTarget { commit: usize },
    /// A split commit, at this position of the loaded list, has no decomposed hunks.
    MissingHunks { commit: usize },
    /// A split group of the commit at this position names a hunk it does not have.
    HunkOutOfRange { commit: usize },
    /// The rebase engine stopped on conflicts; the output is what it printed.
    RebaseConflict { output: String },
    /// The rebase engine failed otherwise; the output is what it printed.
    RebaseFailed { output: String },
    /// The split recipe failed; the output is what it printed.
    SplitAutomationFailed { output: String },
}

/// The text shown for an error.
pub open spec fn error_text(e: CraftError) -> Seq<char> {
    match e {
        CraftError::DetachedHead => "detached HEAD — cannot craft"@,
        CraftError::DirtyWorkingTree => "dirty working tree — commit or stash changes first"@,
        CraftError::NoCommits => "no commits found"@,
        CraftError::SelfTarget { .. } => "a commit cannot be squashed into itself"@,
        CraftError::MissingHunks { .. } => "split commit has no hunks loaded"@,
        CraftError::HunkOutOfRange { .. } => "split group names a hunk the commit does not have"@,
        CraftError::RebaseConflict { output } => "rebase conflict:\n"@ + output@
            + "\nresolve manually:\n  git rebase --continue\n  git rebase --abort"@,
        CraftError::RebaseFailed { output } => "rebase failed:\n"@ + output@,
        CraftError::SplitAutomationFailed { output } => "split automation failed:\n"@ + output@,
    }
}

impl CraftError {
    /// The text shown to the user: what went wrong, with the engine's output where there is
    /// one, and for a conflict how to go on by hand.
    pub fn message(&self) -> (r: String)
        ensures
            r@ == error_text(*self),
            r@.len() > 0,
    {
        let mut r = String::new();
        match self {
            CraftError::DetachedHead => push_str(&mut r, "detached HEAD — cannot craft"),
            CraftError::DirtyWorkingTree => push_str(
                &mut r,
                "dirty working tree — commit or stash changes first",
            ),
            CraftError::NoCommits => push_str(&mut r, "no commits found"),
            CraftError::SelfTarget { .. } => push_str(
                &mut r,
                "a commit cannot be squashed into itself",
            ),
            CraftError::MissingHunks { .. } => push_str(&mut r, "split commit has no hunks loaded"),
            CraftError::HunkOutOfRange { .. } => push_str(
                &mut r,
                "split group names a hunk the commit does not have",
            ),
            CraftError::RebaseConflict { output } => {
                push_str(&mut r, "rebase conflict:\n");
                push_str(&mut r, output.as_str());
                push_str(&mut r, "\nresolve manually:\n  git rebase --continue\n  git rebase --abort");
            },
            CraftError::RebaseFailed { output } => {
                push_str(&mut r, "rebase failed:\n");
                push_str(&mut r, output.as_str());
            },
            CraftError::SplitAutomationFailed { output } => {
                push_str(&mut r, "split automation failed:\n");
                push_str(&mut r, output.as_str());
            },
        }
        assert(r@ =~= error_text(*self));
        proof {
            reveal_strlit("detached HEAD — cannot craft");
            reveal_strlit("dirty working tree — commit or stash changes first");
            reveal_strlit("no commits found");
            reveal_strlit("split commit has no hunks loaded");
            reveal_strlit("a commit cannot be squashed into itself");
            reveal_strlit("split group names a hunk the commit does not have");
            reveal_strlit("rebase conflict:\n");
            reveal_strlit("rebase failed:\n");
            reveal_strlit("split automation failed:\n");
        }
        r
    }
}

} // verus!
