//! The plan model and the operations that change it: one action per loaded commit,
//! reordered on screen without losing which commit each entry belongs to.
use vstd::prelude::*;
use vstd::seq_lib::lemma_multiset_commutative;

use crate::actions::{RebaseAction, TodoEntry};
use crate::error::CraftError;
use crate::models::CommitInfo;
use crate::script::split_entry_ready;
use crate::split::Hunk;

verus! {

broadcast use vstd::seq_lib::group_to_multiset_ensures;

/// The loaded-list positions of the entries, in display order.
pub open spec fn indices_of(es: Seq<TodoEntry>) -> Seq<usize> {
    es.map_values(|e: TodoEntry| e.original_idx)
}

/// An action names no other commit than a loaded one, and a squash or fixup never names the
/// commit it belongs to.
pub open spec fn action_targets_ok(a: RebaseAction, own: usize, n: nat) -> bool {
    match a {
        RebaseAction::Squash { into_idx, .. } => into_idx < n && into_idx != own,
        RebaseAction::Fixup { into_idx } => into_idx < n && into_idx != own,
        _ => true,
    }
}

/// The entries with the action of the one at display position `pos` replaced by `a`.
pub open spec fn with_action(es: Seq<TodoEntry>, pos: int, a: RebaseAction) -> Seq<TodoEntry> {
    es.update(pos, TodoEntry { original_idx: es[pos].original_idx, action: a })
}

/// The sequence with the items at `i` and `i + 1` exchanged.
pub open spec fn swap_adjacent<A>(s: Seq<A>, i: int) -> Seq<A> {
    s.update(i, s[i + 1]).update(i + 1, s[i])
}

/// The plan: the loaded commits in display order, the entry and the selection flag of each,
/// and the hunks of each commit decomposed so far, by loaded-list position.
pub struct Plan {
    pub commits: Vec<CommitInfo>,
    pub entries: Vec<TodoEntry>,
    pub selected: Vec<bool>,
    pub hunks_cache: Vec<Option<Vec<Hunk>>>,
    /// The commits in load order, which `original_idx` refers to.
    pub loaded: Ghost<Seq<CommitInfo>>,
}

impl Plan {
    pub open spec fn len(&self) -> nat {
        self.loaded@.len()
    }

    /// One entry per loaded commit, each loaded commit exactly once, shown beside its own
    /// entry; every action is carried out as planned.
    pub open spec fn wf(&self) -> bool {
        let n = self.loaded@.len();
        &&& n > 0
        &&& self.commits@.len() == n
        &&& self.entries@.len() == n
        &&& self.selected@.len() == n
        &&& self.hunks_cache@.len() == n
        &&& forall|k: int| 0 <= k < n ==> (#[trigger] self.entries@[k]).original_idx < n
        &&& forall|j: int, k: int|
            0 <= j < n && 0 <= k < n && j != k ==> (#[trigger] self.entries@[j]).original_idx
                != (#[trigger] self.entries@[k]).original_idx
        &&& forall|k: int|
            0 <= k < n ==> #[trigger] self.commits@[k] == self.loaded@[self.entries@[k].original_idx as int]
        &&& forall|k: int|
            0 <= k < n ==> action_targets_ok(
                (#[trigger] self.entries@[k]).action,
                self.entries@[k].original_idx,
                n,
            )
        &&& forall|k: int| 0 <= k < n ==> split_entry_ready(#[trigger] self.entries@[k], self.hunks_cache@)
    }

    /// A plan of all `pick`, in load order.
    pub fn new(commits: Vec<CommitInfo>) -> (r: Plan)
        requires
            commits@.len() > 0,
        ensures
            r.wf(),
            r.loaded@ == commits@,
            r.commits@ == commits@,
            forall|k: int| 0 <= k < commits@.len() ==> (#[trigger] r.entries@[k]).original_idx == k && r.entries@[k].action is Pick,
            forall|k: int| 0 <= k < commits@.len() ==> !#[trigger] r.selected@[k],
            forall|k: int| 0 <= k < commits@.len() ==> #[trigger] r.hunks_cache@[k] is None,
    {
        let n = commits.len();
        let mut entries: Vec<TodoEntry> = Vec::new();
        let mut selected: Vec<bool> = Vec::new();
        let mut hunks_cache: Vec<Option<Vec<Hunk>>> = Vec::new();
        let mut k: usize = 0;
        while k < n
            invariant
                k <= n == commits@.len(),
                entries@.len() == k,
                selected@.len() == k,
                hunks_cache@.len() == k,
                forall|j: int| 0 <= j < k ==> (#[trigger] entries@[j]).original_idx == j && entries@[j].action is Pick,
                forall|j: int| 0 <= j < k ==> !#[trigger] selected@[j],
                forall|j: int| 0 <= j < k ==> #[trigger] hunks_cache@[j] is None,
            decreases n - k,
        {
            entries.push(TodoEntry::pick(k));
            selected.push(false);
            hunks_cache.push(None);
            k = k + 1;
        }
        let ghost loaded = commits@;
        Plan { commits, entries, selected, hunks_cache, loaded: Ghost(loaded) }
    }

    /// Gives the entry at display position `pos` the action `a`, in place of whatever it had.
    pub fn set_action(&mut self, pos: usize, a: RebaseAction)
        requires
            old(self).wf(),
            pos < old(self).entries@.len(),
            action_targets_ok(a, old(self).entries@[pos as int].original_idx, old(self).len()),
            split_entry_ready(
                TodoEntry { original_idx: old(self).entries@[pos as int].original_idx, action: a },
                old(self).hunks_cache@,
            ),
        ensures
            final(self).wf(),
            final(self).entries@ == with_action(old(self).entries@, pos as int, a),
            final(self).commits@ == old(self).commits@,
            final(self).selected@ == old(self).selected@,
            final(self).hunks_cache@ == old(self).hunks_cache@,
            final(self).loaded@ == old(self).loaded@,
    {
        let idx = self.entries[pos].original_idx;
        self.entries.set(pos, TodoEntry { original_idx: idx, action: a });
        assert(self.entries@ =~= with_action(old(self).entries@, pos as int, a));
    }

    /// Moves the entry at display position `i` one place down, with its commit and its
    /// selection flag.
    pub fn move_down(&mut self, i: usize)
        requires
            old(self).wf(),
            i + 1 < old(self).entries@.len(),
        ensures
            final(self).wf(),
            final(self).entries@ == swap_adjacent(old(self).entries@, i as int),
            final(self).commits@ == swap_adjacent(old(self).commits@, i as int),
            final(self).selected@ == swap_adjacent(old(self).selected@, i as int),
            final(self).hunks_cache@ == old(self).hunks_cache@,
            final(self).loaded@ == old(self).loaded@,
    {
        let len = self.entries.len();
        let next = i + 1;
        let e = self.entries.remove(i);
        self.entries.insert(next, e);
        assert(self.entries@ =~= swap_adjacent(old(self).entries@, i as int));
        let c = self.commits.remove(i);
        self.commits.insert(next, c);
        assert(self.commits@ =~= swap_adjacent(old(self).commits@, i as int));
        let s = self.selected.remove(i);
        self.selected.insert(next, s);
        assert(self.selected@ =~= swap_adjacent(old(self).selected@, i as int));
        let ghost n = self.len() as int;
        let ghost ii = i as int;
        assert forall|j: int, k: int|
            0 <= j < n && 0 <= k < n && j != k implies (#[trigger] self.entries@[j]).original_idx
            != (#[trigger] self.entries@[k]).original_idx by {
            let oj = if j == ii { ii + 1 } else if j == ii + 1 { ii } else { j };
            let ok = if k == ii { ii + 1 } else if k == ii + 1 { ii } else { k };
            assert(self.entries@[j] == old(self).entries@[oj]);
            assert(self.entries@[k] == old(self).entries@[ok]);
        }
        assert forall|k: int| 0 <= k < n implies #[trigger] self.commits@[k] == self.loaded@[self.entries@[k].original_idx as int] by {
            let ok = if k == ii { ii + 1 } else if k == ii + 1 { ii } else { k };
            assert(self.entries@[k] == old(self).entries@[ok]);
            assert(self.commits@[k] == old(self).commits@[ok]);
        }
        assert forall|k: int| 0 <= k < n implies (#[trigger] self.entries@[k]).original_idx < n && action_targets_ok(
            self.entries@[k].action,
            self.entries@[k].original_idx,
            n as nat,
        ) && split_entry_ready(self.entries@[k], self.hunks_cache@) by {
            let ok = if k == ii { ii + 1 } else if k == ii + 1 { ii } else { k };
            assert(self.entries@[k] == old(self).entries@[ok]);
        }
    }

    /// Stores the decomposed hunks of the commit at loaded-list position `idx`.
    pub fn cache_hunks(&mut self, idx: usize, hunks: Vec<Hunk>)
        requires
            old(self).wf(),
            idx < old(self).len(),
            old(self).hunks_cache@[idx as int] is None,
        ensures
            final(self).wf(),
            final(self).hunks_cache@ == old(self).hunks_cache@.update(idx as int, Some(hunks)),
            final(self).entries@ == old(self).entries@,
            final(self).commits@ == old(self).commits@,
            final(self).selected@ == old(self).selected@,
            final(self).loaded@ == old(self).loaded@,
    {
        let ghost n = self.len() as int;
        self.hunks_cache.set(idx, Some(hunks));
        assert forall|k: int| 0 <= k < n implies split_entry_ready(#[trigger] self.entries@[k], self.hunks_cache@) by {
            assert(split_entry_ready(old(self).entries@[k], old(self).hunks_cache@));
            if self.entries@[k].action is Split {
                assert(self.entries@[k].original_idx != idx);
                assert(crate::script::cached_hunks(self.hunks_cache@, self.entries@[k].original_idx as int)
                    == crate::script::cached_hunks(old(self).hunks_cache@, self.entries@[k].original_idx as int));
            }
        }
    }
}

/// Reordering keeps every entry: the loaded-list positions after moving the entry at `i`
/// one place down are the same multiset as before, and their number is unchanged.
pub proof fn lemma_reorder_keeps_entries(es: Seq<TodoEntry>, i: int)
    requires
        0 <= i && i + 1 < es.len(),
    ensures
        swap_adjacent(es, i).len() == es.len(),
        indices_of(swap_adjacent(es, i)).to_multiset() == indices_of(es).to_multiset(),
{
    let a = indices_of(es);
    let b = indices_of(swap_adjacent(es, i));
    let pre = a.subrange(0, i);
    let post = a.subrange(i + 2, a.len() as int);
    let x = a[i];
    let y = a[i + 1];
    assert(a =~= pre + seq![x, y] + post);
    assert(b =~= pre + seq![y, x] + post);
    lemma_multiset_commutative(pre + seq![x, y], post);
    lemma_multiset_commutative(pre, seq![x, y]);
    lemma_multiset_commutative(pre + seq![y, x], post);
    lemma_multiset_commutative(pre, seq![y, x]);
    assert(seq![x, y] =~= seq![x].push(y));
    assert(seq![y, x] =~= seq![y].push(x));
    assert(seq![x] =~= Seq::<usize>::empty().push(x));
    assert(seq![y] =~= Seq::<usize>::empty().push(y));
    assert(seq![x, y].to_multiset() =~= seq![y, x].to_multiset());
}

/// Moving an entry down and then back up restores the sequence.
pub proof fn lemma_swap_adjacent_twice<A>(s: Seq<A>, i: int)
    requires
        0 <= i && i + 1 < s.len(),
    ensures
        swap_adjacent(swap_adjacent(s, i), i) == s,
{
    assert(swap_adjacent(swap_adjacent(s, i), i) =~= s);
}

/// Giving an entry an action replaces its action: after two assignments only the second
/// is left, and the entry keeps its loaded-list position.
pub proof fn lemma_reassign_replaces(es: Seq<TodoEntry>, pos: int, a: RebaseAction, b: RebaseAction)
    requires
        0 <= pos < es.len(),
    ensures
        with_action(with_action(es, pos, a), pos, b) == with_action(es, pos, b),
        with_action(es, pos, b)[pos].action == b,
        with_action(es, pos, b)[pos].original_idx == es[pos].original_idx,
{
    assert(with_action(with_action(es, pos, a), pos, b) =~= with_action(es, pos, b));
}

/// No squash or fixup of the plan names the entry it belongs to.
pub open spec fn no_self_target(es: Seq<TodoEntry>) -> bool {
    forall|k: int| 0 <= k < es.len() ==> match (#[trigger] es[k]).action {
        RebaseAction::Squash { into_idx, .. } => into_idx != es[k].original_idx,
        RebaseAction::Fixup { into_idx } => into_idx != es[k].original_idx,
        _ => true,
    }
}

/// A plan the builder holds never has a squash or fixup into the entry it belongs to, so
/// it passes `validate_targets` before any script is written.
pub proof fn lemma_plans_have_no_self_target(p: Plan)
    requires
        p.wf(),
    ensures
        no_self_target(p.entries@),
{
    assert forall|k: int| 0 <= k < p.entries@.len() implies match (#[trigger] p.entries@[k]).action {
        RebaseAction::Squash { into_idx, .. } => into_idx != p.entries@[k].original_idx,
        RebaseAction::Fixup { into_idx } => into_idx != p.entries@[k].original_idx,
        _ => true,
    } by {
        assert(action_targets_ok(p.entries@[k].action, p.entries@[k].original_idx, p.len()));
    }
}

/// Rejects a plan with a squash or fixup into itself, before any script is written.
pub fn validate_targets(entries: &[TodoEntry]) -> (r: Result<(), CraftError>)
    ensures
        r is Ok <==> no_self_target(entries@),
        r matches Err(e) ==> e is SelfTarget,
{
    let mut k: usize = 0;
    while k < entries.len()
        invariant
            k <= entries@.len(),
            forall|j: int| 0 <= j < k ==> match (#[trigger] entries@[j]).action {
                RebaseAction::Squash { into_idx, .. } => into_idx != entries@[j].original_idx,
                RebaseAction::Fixup { into_idx } => into_idx != entries@[j].original_idx,
                _ => true,
            },
        decreases entries.len() - k,
    {
        let e = &entries[k];
        let bad = match &e.action {
            RebaseAction::Squash { into_idx, .. } => *into_idx == e.original_idx,
            RebaseAction::Fixup { into_idx } => *into_idx == e.original_idx,
            _ => false,
        };
        if bad {
            return Err(CraftError::SelfTarget { commit: e.original_idx });
        }
        k = k + 1;
    }
    Ok(())
}

} // verus!
