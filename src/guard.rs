//! Checks made before and around a planning session.
use vstd::prelude::*;

use crate::actions::TodoEntry;
use crate::error::CraftError;
use crate::text::{chars_of, string_of_range};

verus! {

/// The status bits of a changed entry of the index or the working tree: new, modified or
/// deleted, staged or not (the repository's `INDEX_NEW`, `INDEX_MODIFIED`, `INDEX_DELETED`,
/// `WT_NEW`, `WT_MODIFIED` and `WT_DELETED`).
pub const DIRTY_STATUS_MASK: u32 = 0x387;

pub open spec fn is_dirty_status(bits: u32) -> bool {
    bits & DIRTY_STATUS_MASK != 0
}

/// Refuses a session on a detached HEAD, or where some status entry shows an uncommitted
/// change; the detached HEAD is reported first.
pub fn validate_state(head_detached: bool, statuses: &[u32]) -> (r: Result<(), CraftError>)
    ensures
        head_detached ==> (r matches Err(CraftError::DetachedHead)),
        !head_detached && (exists|k: int| 0 <= k < statuses@.len() && is_dirty_status(#[trigger] statuses@[k]))
            ==> (r matches Err(CraftError::DirtyWorkingTree)),
        !head_detached && !(exists|k: int| 0 <= k < statuses@.len() && is_dirty_status(#[trigger] statuses@[k]))
            ==> r is Ok,
{
    if head_detached {
        return Err(CraftError::DetachedHead);
    }
    let mut k: usize = 0;
    while k < statuses.len()
        invariant
            !head_detached,
            k <= statuses@.len(),
            forall|j: int| 0 <= j < k ==> !is_dirty_status(#[trigger] statuses@[j]),
        decreases statuses.len() - k,
    {
        if statuses[k] & DIRTY_STATUS_MASK != 0 {
            assert(is_dirty_status(statuses@[k as int]));
            return Err(CraftError::DirtyWorkingTree);
        }
        k = k + 1;
    }
    Ok(())
}

/// The positions of the entries whose action is not `pick`, in display order.
pub open spec fn touched(es: Seq<TodoEntry>) -> Seq<usize>
    decreases es.len(),
{
    if es.len() == 0 {
        Seq::empty()
    } else if es.last().action is Pick {
        touched(es.drop_last())
    } else {
        touched(es.drop_last()).push(es.last().original_idx)
    }
}

/// The loaded-list positions of the commits the plan changes.
pub fn modified_indices(entries: &[TodoEntry]) -> (r: Vec<usize>)
    ensures
        r@ == touched(entries@),
{
    let mut r: Vec<usize> = Vec::new();
    let mut k: usize = 0;
    while k < entries.len()
        invariant
            k <= entries@.len(),
            r@ == touched(entries@.subrange(0, k as int)),
        decreases entries.len() - k,
    {
        assert(entries@.subrange(0, k + 1).drop_last() =~= entries@.subrange(0, k as int));
        if !entries[k].action.is_pick() {
            r.push(entries[k].original_idx);
        }
        k = k + 1;
    }
    assert(entries@.subrange(0, entries@.len() as int) =~= entries@);
    r
}

/// How many of the `modified` commits are already on the upstream branch, where
/// `pushed[i]` tells whether the commit at position `i` is.
pub open spec fn pushed_count(modified: Seq<usize>, pushed: Seq<bool>) -> nat
    decreases modified.len(),
{
    if modified.len() == 0 {
        0
    } else {
        pushed_count(modified.drop_last(), pushed) + if pushed[modified.last() as int] {
            1nat
        } else {
            0nat
        }
    }
}

proof fn lemma_pushed_count_bound(modified: Seq<usize>, pushed: Seq<bool>)
    ensures
        pushed_count(modified, pushed) <= modified.len(),
    decreases modified.len(),
{
    if modified.len() > 0 {
        lemma_pushed_count_bound(modified.drop_last(), pushed);
    }
}

pub fn count_pushed(modified: &[usize], pushed: &[bool]) -> (r: usize)
    requires
        forall|k: int| 0 <= k < modified@.len() ==> modified@[k] < pushed@.len(),
    ensures
        r == pushed_count(modified@, pushed@),
{
    let mut n: usize = 0;
    let mut k: usize = 0;
    while k < modified.len()
        invariant
            k <= modified@.len(),
            forall|j: int| 0 <= j < modified@.len() ==> modified@[j] < pushed@.len(),
            n == pushed_count(modified@.subrange(0, k as int), pushed@),
        decreases modified.len() - k,
    {
        assert(modified@.subrange(0, k + 1).drop_last() =~= modified@.subrange(0, k as int));
        proof {
            lemma_pushed_count_bound(modified@.subrange(0, k as int), pushed@);
        }
        if pushed[modified[k]] {
            n = n + 1;
        }
        k = k + 1;
    }
    assert(modified@.subrange(0, modified@.len() as int) =~= modified@);
    n
}

/// The short form of a commit id: its first seven characters.
pub fn short_id(full: &str) -> (r: String)
    ensures
        r@ == if full@.len() <= 7 {
            full@
        } else {
            full@.subrange(0, 7)
        },
{
    let v = chars_of(full);
    let end: usize = if v.len() <= 7 {
        v.len()
    } else {
        7
    };
    let r = string_of_range(&v, 0, end);
    assert(v@.subrange(0, v@.len() as int) =~= v@);
    r
}

} // verus!
