//! The plan model: one action per loaded commit.
use vstd::prelude::*;

verus! {

/// One group of a split: the hunks it takes (indices into the commit's hunk list) and the
/// message of the commit it becomes.
#[derive(Debug, Clone)]
pub struct SplitGroup {
    pub hunk_indices: Vec<usize>,
    pub message: String,
}

/// What happens to one commit when the plan is executed.
#[derive(Debug, Clone)]
pub enum RebaseAction {
    Pick,
    Reword(String),
    Squash { into_idx: usize, message: Option<String> },
    Fixup { into_idx: usize },
    Drop,
    Split { groups: Vec<SplitGroup> },
    Edit,
}

/// The action of one commit, which `original_idx` names by its position in the loaded list
/// (newest first), whatever its place on screen.
#[derive(Debug, Clone)]
pub struct TodoEntry {
    pub original_idx: usize,
    pub action: RebaseAction,
}

impl TodoEntry {
    pub fn pick(idx: usize) -> (r: Self)
        ensures
            r.original_idx == idx,
            r.action is Pick,
    {
        TodoEntry { original_idx: idx, action: RebaseAction::Pick }
    }
}

/// The name under which an action is shown.
pub open spec fn action_name(a: RebaseAction) -> Seq<char> {
    match a {
        RebaseAction::Pick => "pick"@,
        RebaseAction::Reword(_) => "reword"@,
        RebaseAction::Squash { .. } => "squash"@,
        RebaseAction::Fixup { .. } => "fixup"@,
        RebaseAction::Drop => "drop"@,
        RebaseAction::Split { .. } => "split"@,
        RebaseAction::Edit => "edit"@,
    }
}

/// The keyword that stands for an action in the rebase engine's todo list: a split stops
/// for editing, where the split recipe takes over.
pub open spec fn todo_keyword(a: RebaseAction) -> Seq<char> {
    match a {
        RebaseAction::Split { .. } => "edit"@,
        _ => action_name(a),
    }
}

impl RebaseAction {
    /// The name under which this action is shown.
    pub fn name(&self) -> (r: &'static str)
        ensures
            r@ == action_name(*self),
    {
        match self {
            RebaseAction::Pick => "pick",
            RebaseAction::Reword(_) => "reword",
            RebaseAction::Squash { .. } => "squash",
            RebaseAction::Fixup { .. } => "fixup",
            RebaseAction::Drop => "drop",
            RebaseAction::Split { .. } => "split",
            RebaseAction::Edit => "edit",
        }
    }

    /// The keyword written for this action into the rebase engine's todo list.
    pub fn todo_keyword(&self) -> (r: &'static str)
        ensures
            r@ == todo_keyword(*self),
    {
        match self {
            RebaseAction::Split { .. } => "edit",
            _ => self.name(),
        }
    }

    pub fn is_pick(&self) -> (r: bool)
        ensures
            r == (*self is Pick),
    {
        match self {
            RebaseAction::Pick => true,
            _ => false,
        }
    }
}

} // verus!
