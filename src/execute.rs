//! Decisions of the rebase executor: where the rebase starts, whether the split recipe has
//! to run, and how a failure is classified.
use vstd::prelude::*;

use crate::actions::TodoEntry;
use crate::error::CraftError;
use crate::models::CommitInfo;
use crate::script::plan_in_range;
use crate::text::{contains, push_str, str_contains};

verus! {

/// The largest loaded-list position among the entries: the oldest commit of the plan.
pub open spec fn oldest_index(es: Seq<TodoEntry>) -> int
    decreases es.len(),
{
    if es.len() == 0 {
        -1
    } else {
        let rest = oldest_index(es.drop_last());
        if es.last().original_idx as int > rest {
            es.last().original_idx as int
        } else {
            rest
        }
    }
}

proof fn lemma_oldest_index_in(es: Seq<TodoEntry>)
    requires
        es.len() > 0,
    ensures
        exists|k: int| 0 <= k < es.len() && (#[trigger] es[k]).original_idx == oldest_index(es),
        forall|k: int| 0 <= k < es.len() ==> (#[trigger] es[k]).original_idx <= oldest_index(es),
    decreases es.len(),
{
    if es.len() > 1 {
        lemma_oldest_index_in(es.drop_last());
        let k = choose|k: int|
            0 <= k < es.len() - 1 && (#[trigger] es.drop_last()[k]).original_idx == oldest_index(
                es.drop_last(),
            );
        assert(es[k] == es.drop_last()[k]);
        if es.last().original_idx as int > oldest_index(es.drop_last()) {
            assert(es[es.len() - 1].original_idx == oldest_index(es));
        } else {
            assert(es[k].original_idx == oldest_index(es));
        }
        assert forall|j: int| 0 <= j < es.len() implies (#[trigger] es[j]).original_idx
            <= oldest_index(es) by {
            if j < es.len() - 1 {
                assert(es[j] == es.drop_last()[j]);
            }
        }
    } else {
        assert(es.drop_last().len() == 0);
        assert(oldest_index(es.drop_last()) == -1);
        assert(es[0] == es.last());
        assert(es[0].original_idx == oldest_index(es));
    }
}

/// Where the rebase starts: the first parent of the plan's oldest commit, or `None` for a
/// rebase from the root when that commit has no parent.
pub open spec fn rebase_base_spec(commits: Seq<CommitInfo>, es: Seq<TodoEntry>) -> Option<Seq<char>> {
    let c = commits[oldest_index(es)];
    if c.parents@.len() == 0 {
        None
    } else {
        Some(c.parents@[0]@)
    }
}

pub fn rebase_base(commits: &[CommitInfo], entries: &[TodoEntry]) -> (r: Option<String>)
    requires
        entries@.len() > 0,
        plan_in_range(commits@, entries@),
    ensures
        0 <= oldest_index(entries@) < commits@.len(),
        match r {
            Some(s) => rebase_base_spec(commits@, entries@) == Some(s@),
            None => rebase_base_spec(commits@, entries@) is None,
        },
{
    let mut oldest = entries[0].original_idx;
    let mut k: usize = 1;
    assert(entries@.subrange(0, 1).drop_last().len() == 0);
    assert(oldest_index(entries@.subrange(0, 1).drop_last()) == -1);
    assert(entries@.subrange(0, 1).last() == entries@[0]);
    while k < entries.len()
        invariant
            1 <= k <= entries@.len(),
            oldest as int == oldest_index(entries@.subrange(0, k as int)),
        decreases entries.len() - k,
    {
        assert(entries@.subrange(0, k + 1).drop_last() =~= entries@.subrange(0, k as int));
        if entries[k].original_idx > oldest {
            oldest = entries[k].original_idx;
        }
        k = k + 1;
    }
    assert(entries@.subrange(0, entries@.len() as int) =~= entries@);
    proof {
        lemma_oldest_index_in(entries@);
    }
    let c = &commits[oldest];
    if c.parents.len() == 0 {
        None
    } else {
        Some(c.parents[0].clone())
    }
}

/// The engine's output tells of a conflict.
pub open spec fn shows_conflict(out: Seq<char>) -> bool {
    contains(out, "CONFLICT"@) || contains(out, "could not apply"@)
}

/// The error for a rebase that did not succeed: a conflict where either stream tells of
/// one, a plain failure otherwise. Either carries both streams.
pub fn classify_rebase_failure(stdout: &str, stderr: &str) -> (r: CraftError)
    ensures
        shows_conflict(stdout@) || shows_conflict(stderr@) ==> (r matches CraftError::RebaseConflict {
            output,
        } && output@ == stdout@ + "\n"@ + stderr@),
        !(shows_conflict(stdout@) || shows_conflict(stderr@)) ==> (r matches CraftError::RebaseFailed {
            output,
        } && output@ == stdout@ + "\n"@ + stderr@),
{
    let mut output = String::from_str(stdout);
    push_str(&mut output, "\n");
    push_str(&mut output, stderr);
    let conflict = str_contains(stdout, "CONFLICT") || str_contains(stdout, "could not apply")
        || str_contains(stderr, "CONFLICT") || str_contains(stderr, "could not apply");
    if conflict {
        CraftError::RebaseConflict { output }
    } else {
        CraftError::RebaseFailed { output }
    }
}

/// The repository status text shows a rebase that stopped for editing, where the split
/// recipe takes over.
pub open spec fn stopped_for_edit(status: Seq<char>) -> bool {
    contains(status, "interactive rebase"@) || contains(status, "edit"@)
}

pub fn needs_split_run(status: &str) -> (r: bool)
    ensures
        r == stopped_for_edit(status@),
{
    str_contains(status, "interactive rebase") || str_contains(status, "edit")
}

} // verus!
