//! The options of the commands that rewrite history.
use vstd::prelude::*;

verus! {

/// Options of the `craft` command.
#[derive(Debug, Clone, Copy)]
pub struct CraftArgs {
    /// How many commits to load, newest first.
    pub count: usize,
    /// Pre-select the newest this many commits.
    pub last: Option<usize>,
}

/// Options of the `reword` command.
#[derive(Debug, Clone, Copy)]
pub struct RewordArgs {
    /// Select the newest this many commits.
    pub last: Option<usize>,
    /// Select every displayed commit.
    pub all: bool,
    /// How many commits to display.
    pub count: usize,
    /// Edit messages in `$EDITOR` instead of inline.
    pub editor: bool,
}

} // verus!
