//! Choosing the commits to reword, and the plan that rewords them.
use vstd::prelude::*;

use crate::actions::{RebaseAction, TodoEntry};
use crate::selection::{parse_selection, selection_of};
use crate::text::{str_eq, trim, trim_string};

verus! {

/// What one line typed at the pick prompt did.
#[derive(Debug, Clone, PartialEq, Eq)]
pub enum PickStep {
    /// An empty line: the choice is made.
    Done,
    /// The selection changed; these positions are merges and were left alone.
    Applied { skipped_merges: Vec<usize> },
    /// The line was not understood; nothing changed.
    Invalid,
}

/// The flags after toggling each of the positions `ps` in turn, merges left alone.
pub open spec fn toggled(sel: Seq<bool>, merge: Seq<bool>, ps: Seq<usize>) -> Seq<bool>
    decreases ps.len(),
{
    if ps.len() == 0 {
        sel
    } else {
        let before = toggled(sel, merge, ps.drop_last());
        let i = ps.last() as int;
        if merge[i] {
            before
        } else {
            before.update(i, !before[i])
        }
    }
}

/// The positions among `ps` that are merges, in order.
pub open spec fn merges_in(merge: Seq<bool>, ps: Seq<usize>) -> Seq<usize>
    decreases ps.len(),
{
    if ps.len() == 0 {
        Seq::empty()
    } else if merge[ps.last() as int] {
        merges_in(merge, ps.drop_last()).push(ps.last())
    } else {
        merges_in(merge, ps.drop_last())
    }
}

/// Applies one line typed at the pick prompt: an empty line ends the choice, `a` selects
/// every commit that is not a merge, `n` clears the selection, and a selection such as
/// `1,3-5` toggles the commits it names, merges excepted.
pub fn apply_pick_input(selected: &mut Vec<bool>, is_merge: &Vec<bool>, input: &str) -> (r: PickStep)
    requires
        old(selected)@.len() == is_merge@.len(),
    ensures
        final(selected)@.len() == old(selected)@.len(),
        ({
            let t = trim(input@);
            let n = is_merge@.len();
            if t.len() == 0 {
                r == PickStep::Done && final(selected)@ == old(selected)@
            } else if t == "a"@ {
                (r matches PickStep::Applied { skipped_merges } && skipped_merges@.len() == 0)
                    && forall|i: int| 0 <= i < n ==> #[trigger] final(selected)@[i] == !is_merge@[i]
            } else if t == "n"@ {
                (r matches PickStep::Applied { skipped_merges } && skipped_merges@.len() == 0)
                    && forall|i: int| 0 <= i < n ==> !#[trigger] final(selected)@[i]
            } else {
                match selection_of(t, n as nat) {
                    Some(ps) => (r matches PickStep::Applied { skipped_merges } && skipped_merges@
                        == merges_in(is_merge@, ps)) && final(selected)@ == toggled(
                        old(selected)@,
                        is_merge@,
                        ps,
                    ),
                    None => r == PickStep::Invalid && final(selected)@ == old(selected)@,
                }
            }
        }),
{
    let t = trim_string(input);
    let n = is_merge.len();
    let tv = crate::text::chars_of(t.as_str());
    if tv.len() == 0 {
        return PickStep::Done;
    }
    if str_eq(t.as_str(), "a") {
        let mut i: usize = 0;
        while i < n
            invariant
                n == is_merge@.len() == selected@.len(),
                i <= n,
                forall|j: int| 0 <= j < i ==> #[trigger] selected@[j] == !is_merge@[j],
            decreases n - i,
        {
            selected.set(i, !is_merge[i]);
            i = i + 1;
        }
        return PickStep::Applied { skipped_merges: Vec::new() };
    }
    if str_eq(t.as_str(), "n") {
        let mut i: usize = 0;
        while i < n
            invariant
                n == is_merge@.len() == selected@.len(),
                i <= n,
                forall|j: int| 0 <= j < i ==> !#[trigger] selected@[j],
            decreases n - i,
        {
            selected.set(i, false);
            i = i + 1;
        }
        return PickStep::Applied { skipped_merges: Vec::new() };
    }
    match parse_selection(t.as_str(), n) {
        Some(ps) => {
            proof {
                crate::selection::lemma_parts_in_range(crate::selection::split_on(t@, ','), n as nat);
                assert(selection_of(t@, n as nat) == Some(ps@));
                assert(crate::selection::parts_positions(crate::selection::split_on(t@, ','), n as nat) == Some(ps@));
                let ghost pp = crate::selection::parts_positions(crate::selection::split_on(t@, ','), n as nat);
                assert(pp->0 == ps@);
                assert forall|j: int| 0 <= j < ps@.len() implies ps@[j] < n by {
                    assert(pp->0[j] < n as nat);
                }
            }
            let ghost start = selected@;
            let mut skipped: Vec<usize> = Vec::new();
            let mut k: usize = 0;
            while k < ps.len()
                invariant
                    n == is_merge@.len() == selected@.len(),
                    k <= ps@.len(),
                    forall|j: int| 0 <= j < ps@.len() ==> ps@[j] < n,
                    selected@ == toggled(start, is_merge@, ps@.subrange(0, k as int)),
                    skipped@ == merges_in(is_merge@, ps@.subrange(0, k as int)),
                decreases ps.len() - k,
            {
                assert(ps@.subrange(0, k + 1).drop_last() =~= ps@.subrange(0, k as int));
                let i = ps[k];
                if is_merge[i] {
                    skipped.push(i);
                } else {
                    let v = selected[i];
                    selected.set(i, !v);
                }
                k = k + 1;
            }
            assert(ps@.subrange(0, ps@.len() as int) =~= ps@);
            PickStep::Applied { skipped_merges: skipped }
        },
        None => PickStep::Invalid,
    }
}

/// The positions that are selected and are not merges, ascending.
pub open spec fn picked_positions(sel: Seq<bool>, merge: Seq<bool>, n: int) -> Seq<usize>
    decreases n,
{
    if n <= 0 {
        Seq::empty()
    } else if sel[n - 1] && !merge[n - 1] {
        picked_positions(sel, merge, n - 1).push((n - 1) as usize)
    } else {
        picked_positions(sel, merge, n - 1)
    }
}

pub fn picked(selected: &Vec<bool>, is_merge: &Vec<bool>) -> (r: Vec<usize>)
    requires
        selected@.len() == is_merge@.len(),
    ensures
        r@ == picked_positions(selected@, is_merge@, selected@.len() as int),
{
    let mut r: Vec<usize> = Vec::new();
    let mut i: usize = 0;
    while i < selected.len()
        invariant
            selected@.len() == is_merge@.len(),
            i <= selected@.len(),
            r@ == picked_positions(selected@, is_merge@, i as int),
        decreases selected.len() - i,
    {
        if selected[i] && !is_merge[i] {
            r.push(i);
        }
        i = i + 1;
    }
    r
}

/// The commits chosen without the prompt: every non-merge with `all`, or the non-merges
/// among the newest `last`; `None` where the prompt has to ask.
pub fn auto_selection(is_merge: &Vec<bool>, all: bool, last: Option<usize>) -> (r: Option<Vec<usize>>)
    ensures
        all ==> (r matches Some(v) && v@ == picked_positions(
            Seq::new(is_merge@.len(), |i: int| true),
            is_merge@,
            is_merge@.len() as int,
        )),
        !all && last is Some ==> (r matches Some(v) && v@ == picked_positions(
            Seq::new(is_merge@.len(), |i: int| i < last->0),
            is_merge@,
            is_merge@.len() as int,
        )),
        !all && last is None ==> r is None,
{
    let n = is_merge.len();
    let limit: usize = if all {
        n
    } else {
        match last {
            Some(k) => k,
            None => {
                return None;
            },
        }
    };
    let mut sel: Vec<bool> = Vec::new();
    let mut i: usize = 0;
    while i < n
        invariant
            n == is_merge@.len(),
            i <= n,
            sel@.len() == i,
            forall|j: int| 0 <= j < i ==> #[trigger] sel@[j] == (j < limit),
        decreases n - i,
    {
        sel.push(i < limit);
        i = i + 1;
    }
    let r = picked(&sel, is_merge);
    proof {
        if all {
            assert(sel@ =~= Seq::new(is_merge@.len(), |i: int| true));
        } else {
            assert(sel@ =~= Seq::new(is_merge@.len(), |i: int| i < last->0));
        }
    }
    Some(r)
}

/// One more than the largest position among the rewords, 0 for none.
pub open spec fn plan_length(rw: Seq<(usize, String)>) -> nat
    decreases rw.len(),
{
    if rw.len() == 0 {
        0
    } else {
        let rest = plan_length(rw.drop_last());
        if rw.last().0 + 1 > rest {
            (rw.last().0 + 1) as nat
        } else {
            rest
        }
    }
}

/// The new message of position `k`: the last one given for it, if any.
pub open spec fn reword_for(rw: Seq<(usize, String)>, k: int) -> Option<Seq<char>>
    decreases rw.len(),
{
    if rw.len() == 0 {
        None
    } else if rw.last().0 == k {
        Some(rw.last().1@)
    } else {
        reword_for(rw.drop_last(), k)
    }
}

proof fn lemma_reword_in_plan(rw: Seq<(usize, String)>, k: int)
    requires
        reword_for(rw, k) is Some,
    ensures
        0 <= k < plan_length(rw),
    decreases rw.len(),
{
    if rw.last().0 != k {
        lemma_reword_in_plan(rw.drop_last(), k);
    }
}

/// A plan that rewords the commits at the given positions of the loaded list (newest
/// first) and picks every newer one: it reaches back to the oldest reworded commit, so the
/// rebase starts at that commit's parent.
pub fn reword_plan(count: usize, rewords: &Vec<(usize, String)>) -> (r: Vec<TodoEntry>)
    requires
        forall|j: int| 0 <= j < rewords@.len() ==> (#[trigger] rewords@[j]).0 < count,
    ensures
        r@.len() == plan_length(rewords@),
        r@.len() <= count,
        forall|k: int| 0 <= k < r@.len() ==> (#[trigger] r@[k]).original_idx == k,
        forall|k: int|
            0 <= k < r@.len() ==> match reword_for(rewords@, k) {
                Some(m) => (#[trigger] r@[k]).action matches RebaseAction::Reword(t) && t@ == m,
                None => r@[k].action is Pick,
            },
{
    let mut len: usize = 0;
    let mut j: usize = 0;
    while j < rewords.len()
        invariant
            j <= rewords@.len(),
            forall|i: int| 0 <= i < rewords@.len() ==> (#[trigger] rewords@[i]).0 < count,
            len == plan_length(rewords@.subrange(0, j as int)),
            len <= count,
        decreases rewords.len() - j,
    {
        assert(rewords@.subrange(0, j + 1).drop_last() =~= rewords@.subrange(0, j as int));
        let p = rewords[j].0;
        if p + 1 > len {
            len = p + 1;
        }
        j = j + 1;
    }
    assert(rewords@.subrange(0, rewords@.len() as int) =~= rewords@);
    let mut r: Vec<TodoEntry> = Vec::new();
    let mut k: usize = 0;
    while k < len
        invariant
            k <= len,
            r@.len() == k,
            forall|i: int| 0 <= i < k ==> (#[trigger] r@[i]).original_idx == i && r@[i].action is Pick,
        decreases len - k,
    {
        r.push(TodoEntry::pick(k));
        k = k + 1;
    }
    let mut j: usize = 0;
    while j < rewords.len()
        invariant
            j <= rewords@.len(),
            r@.len() == len == plan_length(rewords@),
            forall|i: int| 0 <= i < rewords@.len() ==> (#[trigger] rewords@[i]).0 < count,
            forall|k: int| 0 <= k < r@.len() ==> (#[trigger] r@[k]).original_idx == k,
            forall|k: int|
                0 <= k < r@.len() ==> match reword_for(rewords@.subrange(0, j as int), k) {
                    Some(m) => (#[trigger] r@[k]).action matches RebaseAction::Reword(t) && t@ == m,
                    None => r@[k].action is Pick,
                },
        decreases rewords.len() - j,
    {
        assert(rewords@.subrange(0, j + 1).drop_last() =~= rewords@.subrange(0, j as int));
        let p = rewords[j].0;
        proof {
            assert(reword_for(rewords@.subrange(0, j + 1), p as int) is Some);
            lemma_reword_in_plan(rewords@.subrange(0, j + 1), p as int);
            lemma_plan_length_prefix(rewords@, j + 1);
        }
        r.set(p, TodoEntry { original_idx: p, action: RebaseAction::Reword(rewords[j].1.clone()) });
        j = j + 1;
    }
    assert(rewords@.subrange(0, rewords@.len() as int) =~= rewords@);
    r
}

proof fn lemma_plan_length_prefix(rw: Seq<(usize, String)>, j: int)
    requires
        0 <= j <= rw.len(),
    ensures
        plan_length(rw.subrange(0, j)) <= plan_length(rw),
    decreases rw.len() - j,
{
    if j < rw.len() {
        lemma_plan_length_prefix(rw, j + 1);
        assert(rw.subrange(0, j + 1).drop_last() =~= rw.subrange(0, j));
    } else {
        assert(rw.subrange(0, j) =~= rw);
    }
}

} // verus!
