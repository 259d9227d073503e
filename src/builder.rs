//! The interactive plan builder as a state machine: each key press moves it from one state
//! to the next. The caller draws the state, reads keys, and does the loading the builder
//! asks for (a commit's diff, a commit's hunks).
use vstd::prelude::*;

use crate::actions::{RebaseAction, SplitGroup, TodoEntry};
use crate::plan::{swap_adjacent, with_action, Plan};
use crate::split::Hunk;
use crate::text::{chars_of, decimal, push_decimal, push_str, string_of_range};

verus! {

/// The number of group-message slots; groups are numbered from 1.
pub const GROUP_SLOTS: usize = 10;

#[derive(Debug, Clone, Copy, PartialEq, Eq, Structural)]
pub enum Mode {
    CommitList,
    ActionMenu,
    RewordEdit,
    SplitView,
    SquashTarget,
    ReorderMode,
    Preview,
}

/// A key press, as the builder reads it.
#[derive(Debug, Clone, Copy, PartialEq, Eq, Structural)]
pub enum Key {
    Char(char),
    Enter,
    Esc,
    Backspace,
    Delete,
    Left,
    Right,
    Up,
    Down,
    Home,
    End,
    Other,
}

/// Work the builder asks of its caller after a key press.
#[derive(Debug, Clone, Copy, PartialEq, Eq, Structural)]
pub enum Request {
    Nothing,
    /// Load the diff of the commit at this loaded-list position and hand it to `diff_loaded`.
    LoadDiff { commit: usize },
    /// Decompose the commit at this loaded-list position and hand it to `hunks_loaded`.
    LoadHunks { commit: usize },
}

/// How a session ends: the plan to execute, with the hunks decomposed per loaded-list
/// position, or cancelled.
pub enum CraftResult {
    Execute(Vec<TodoEntry>, Vec<Option<Vec<Hunk>>>),
    Cancel,
}

pub struct App {
    pub plan: Plan,
    pub cursor: usize,
    pub mode: Mode,
    pub should_quit: bool,
    pub confirmed: bool,
    pub reword_buffer: Vec<char>,
    pub reword_cursor: usize,
    /// The group of each hunk of the commit being split; 0 is no group.
    pub hunk_groups: Vec<usize>,
    pub hunk_cursor: usize,
    pub split_messages: Vec<Vec<char>>,
    pub split_msg_cursor: usize,
    pub split_editing_msg: bool,
    pub next_group: usize,
    /// The loaded-list position of the commit being split.
    pub split_target: usize,
    pub squash_source: usize,
    /// The loaded-list position whose hunks were asked for and have not come yet.
    pub pending_hunks: Option<usize>,
    pub diff_text: String,
    pub diff_scroll: u16,
    pub status: String,
}

pub open spec fn has_actions(es: Seq<TodoEntry>) -> bool {
    exists|k: int| 0 <= k < es.len() && !((#[trigger] es[k]).action is Pick)
}

/// The positions of the hunks in group `g`, ascending.
pub open spec fn positions_of(gs: Seq<usize>, g: int) -> Seq<usize>
    decreases gs.len(),
{
    if gs.len() == 0 {
        Seq::empty()
    } else if gs.last() == g {
        positions_of(gs.drop_last(), g).push((gs.len() - 1) as usize)
    } else {
        positions_of(gs.drop_last(), g)
    }
}

/// The largest group number given to a hunk, 0 if none.
pub open spec fn max_group(gs: Seq<usize>) -> int
    decreases gs.len(),
{
    if gs.len() == 0 {
        0
    } else if gs.last() > max_group(gs.drop_last()) {
        gs.last() as int
    } else {
        max_group(gs.drop_last())
    }
}

/// The message of group `g`: the one typed for it, or `split part g`.
pub open spec fn group_message(msgs: Seq<Vec<char>>, g: int) -> Seq<char> {
    if 0 <= g < msgs.len() && msgs[g]@.len() > 0 {
        msgs[g]@
    } else {
        "split part "@ + decimal(g as nat)
    }
}

/// The split groups 1 to `m` that hold some hunk, in group order.
pub open spec fn groups_upto(gs: Seq<usize>, msgs: Seq<Vec<char>>, m: int) -> Seq<
    (Seq<usize>, Seq<char>),
>
    decreases m,
{
    if m <= 0 {
        Seq::empty()
    } else if positions_of(gs, m).len() > 0 {
        groups_upto(gs, msgs, m - 1).push((positions_of(gs, m), group_message(msgs, m)))
    } else {
        groups_upto(gs, msgs, m - 1)
    }
}

pub open spec fn group_view(g: SplitGroup) -> (Seq<usize>, Seq<char>) {
    (g.hunk_indices@, g.message@)
}

proof fn lemma_positions_in_range(gs: Seq<usize>, g: int)
    ensures
        forall|k: int| 0 <= k < positions_of(gs, g).len() ==> #[trigger] positions_of(gs, g)[k] < gs.len(),
    decreases gs.len(),
{
    if gs.len() > 0 {
        lemma_positions_in_range(gs.drop_last(), g);
        let pre = positions_of(gs.drop_last(), g);
        if gs.last() == g {
            assert forall|k: int| 0 <= k < positions_of(gs, g).len() implies #[trigger] positions_of(gs, g)[k] < gs.len() by {
                if k < pre.len() {
                    assert(positions_of(gs, g)[k] == pre[k]);
                }
            }
        }
    }
}


/// The digit a key stands for, `'1'` to `'9'`.
pub open spec fn digit_of(c: char) -> usize {
    (c as u32 - '0' as u32) as usize
}

pub open spec fn is_group_digit(c: char) -> bool {
    '1' <= c && c <= '9'
}

/// The cursor moved one row down, stopping at the last of `n` rows.
pub open spec fn cursor_down(c: usize, n: nat) -> usize {
    if c + 1 < n {
        (c + 1) as usize
    } else {
        c
    }
}

/// The cursor moved one row up, stopping at the first row.
pub open spec fn cursor_up(c: usize) -> usize {
    if c > 0 {
        (c - 1) as usize
    } else {
        0
    }
}

/// What a key does in the commit list.
pub open spec fn commit_list_step(o: App, f: App, key: Key, r: Request) -> bool {
    &&& f.plan.entries@ == o.plan.entries@
    &&& f.plan.commits@ == o.plan.commits@
    &&& f.plan.hunks_cache@ == o.plan.hunks_cache@
    &&& f.plan.loaded == o.plan.loaded
    &&& f.plan.selected@ == if key == Key::Char(' ') {
        o.plan.selected@.update(o.cursor as int, !o.plan.selected@[o.cursor as int])
    } else {
        o.plan.selected@
    }
    &&& f.cursor == if key == Key::Down || key == Key::Char('j') {
        cursor_down(o.cursor, o.plan.len())
    } else if key == Key::Up || key == Key::Char('k') {
        cursor_up(o.cursor)
    } else {
        o.cursor
    }
    &&& f.mode == if key == Key::Enter {
        Mode::ActionMenu
    } else if key == Key::Char('p') && has_actions(o.plan.entries@) {
        Mode::Preview
    } else {
        Mode::CommitList
    }
    &&& key == Key::Char('p') && !has_actions(o.plan.entries@) ==> f.status@
        == "no actions assigned yet"@
    &&& key == Key::Char('p') && has_actions(o.plan.entries@) ==> f.diff_scroll == 0
    &&& f.should_quit == (o.should_quit || key == Key::Char('q') || key == Key::Esc)
    &&& (key == Key::Char('q') || key == Key::Esc) ==> !f.confirmed
    &&& r == if key == Key::Char('D') {
        Request::LoadDiff { commit: o.plan.entries@[o.cursor as int].original_idx }
    } else {
        Request::Nothing
    }
}

/// The split view opened on the hunks of the commit under the cursor, none in a group.
pub open spec fn split_view_opened(f: App, own: usize, count: nat) -> bool {
    &&& f.mode == Mode::SplitView
    &&& f.split_target == own
    &&& f.hunk_groups@.len() == count
    &&& forall|k: int| 0 <= k < count ==> #[trigger] f.hunk_groups@[k] == 0
    &&& f.hunk_cursor == 0
    &&& f.next_group == 1
    &&& !f.split_editing_msg
}

/// What a key does in the action menu.
pub open spec fn action_menu_step(o: App, f: App, key: Key, r: Request) -> bool {
    let pos = o.cursor as int;
    let own = o.plan.entries@[pos].original_idx;
    &&& f.plan.commits@ == o.plan.commits@
    &&& f.plan.selected@ == o.plan.selected@
    &&& f.plan.loaded == o.plan.loaded
    &&& f.plan.hunks_cache@ == o.plan.hunks_cache@
    &&& f.cursor == o.cursor
    &&& f.plan.entries@ == if key == Key::Char('d') {
        with_action(o.plan.entries@, pos, RebaseAction::Drop)
    } else if key == Key::Char('e') {
        with_action(o.plan.entries@, pos, RebaseAction::Edit)
    } else if key == Key::Char('x') {
        with_action(o.plan.entries@, pos, RebaseAction::Pick)
    } else if key == Key::Char('f') && pos > 0 {
        with_action(
            o.plan.entries@,
            pos,
            RebaseAction::Fixup { into_idx: o.plan.entries@[pos - 1].original_idx },
        )
    } else {
        o.plan.entries@
    }
    &&& (key == Key::Char('d') || key == Key::Char('e') || key == Key::Char('x') || key
        == Key::Char('f') || key == Key::Esc) ==> f.mode == Mode::CommitList
    &&& key == Key::Char('f') && pos == 0 ==> f.status@ == "cannot fixup first commit"@
    &&& key == Key::Char('r') ==> f.mode == Mode::RewordEdit && f.reword_buffer@
        == o.plan.commits@[pos].message@ && f.reword_cursor == f.reword_buffer@.len()
    &&& key == Key::Char('q') ==> f.mode == Mode::SquashTarget && f.squash_source == o.cursor
    &&& key == Key::Char('m') ==> f.mode == Mode::ReorderMode
    &&& key == Key::Char('s') ==> match o.plan.hunks_cache@[own as int] {
        None => r == (Request::LoadHunks { commit: own }) && f.pending_hunks == Some(own)
            && f.mode == Mode::ActionMenu,
        Some(hs) => r == Request::Nothing && if hs@.len() > 0 {
            split_view_opened(f, own, hs@.len())
        } else {
            f.mode == Mode::CommitList && f.status@ == "no hunks to split"@
        },
    }
    &&& key != Key::Char('s') ==> r == Request::Nothing
    &&& !(key == Key::Char('d') || key == Key::Char('e') || key == Key::Char('x') || key
        == Key::Char('f') || key == Key::Esc || key == Key::Char('r') || key == Key::Char('q')
        || key == Key::Char('m') || key == Key::Char('s')) ==> f.mode == Mode::ActionMenu
}

/// What a key does while the new message is typed.
pub open spec fn reword_step(o: App, f: App, key: Key) -> bool {
    let pos = o.cursor as int;
    let text = o.reword_buffer@;
    let n = text.len();
    let c = o.reword_cursor;
    &&& f.cursor == o.cursor
    &&& f.plan.commits@ == o.plan.commits@
    &&& f.plan.selected@ == o.plan.selected@
    &&& f.plan.hunks_cache@ == o.plan.hunks_cache@
    &&& f.plan.loaded == o.plan.loaded
    &&& if key == Key::Esc {
        &&& f.mode == Mode::CommitList
        &&& if n > 0 && text != o.plan.commits@[pos].message@ {
            &&& f.plan.entries@.len() == o.plan.entries@.len()
            &&& f.plan.entries@[pos].original_idx == o.plan.entries@[pos].original_idx
            &&& (f.plan.entries@[pos].action matches RebaseAction::Reword(m) && m@ == text)
            &&& forall|k: int|
                0 <= k < o.plan.entries@.len() && k != pos ==> #[trigger] f.plan.entries@[k]
                    == o.plan.entries@[k]
        } else {
            f.plan.entries@ == o.plan.entries@
        }
    } else {
        &&& f.plan.entries@ == o.plan.entries@
        &&& f.mode == Mode::RewordEdit
        &&& f.reword_buffer@ == match key {
            Key::Char(ch) => text.insert(c as int, ch),
            Key::Enter => text.insert(c as int, '\n'),
            Key::Backspace => if c > 0 {
                text.remove(c - 1)
            } else {
                text
            },
            Key::Delete => if c < n {
                text.remove(c as int)
            } else {
                text
            },
            _ => text,
        }
        &&& f.reword_cursor == match key {
            Key::Char(_) => (c + 1) as usize,
            Key::Enter => (c + 1) as usize,
            Key::Backspace => cursor_up(c),
            Key::Left => cursor_up(c),
            Key::Right => if c < n {
                (c + 1) as usize
            } else {
                c
            },
            Key::Home => 0,
            Key::End => n as usize,
            _ => c,
        }
    }
}

/// The split the commit under the cursor gets on finalizing, written in place of its
/// action; with no hunk in any group the plan stays as it is.
pub open spec fn split_written(o: App, f: App) -> bool {
    let pos = o.cursor as int;
    if max_group(o.hunk_groups@) > 0 {
        &&& f.plan.entries@.len() == o.plan.entries@.len()
        &&& f.plan.entries@[pos].original_idx == o.plan.entries@[pos].original_idx
        &&& forall|k: int|
            0 <= k < o.plan.entries@.len() && k != pos ==> #[trigger] f.plan.entries@[k]
                == o.plan.entries@[k]
        &&& f.plan.entries@[pos].action matches RebaseAction::Split { groups }
            && groups@.map_values(|g: SplitGroup| group_view(g)) == groups_upto(
            o.hunk_groups@,
            o.split_messages@,
            max_group(o.hunk_groups@),
        )
    } else {
        &&& f.plan == o.plan
        &&& f.status@ == "no hunks assigned to groups"@
    }
}

/// What a key does in the split view.
pub open spec fn split_view_step(o: App, f: App, key: Key) -> bool {
    let hc = o.hunk_cursor as int;
    &&& f.cursor == o.cursor
    &&& f.plan.commits@ == o.plan.commits@
    &&& f.plan.selected@ == o.plan.selected@
    &&& f.plan.hunks_cache@ == o.plan.hunks_cache@
    &&& f.plan.loaded == o.plan.loaded
    &&& if o.split_editing_msg {
        &&& f.plan == o.plan
        &&& f.mode == Mode::SplitView
        &&& f.hunk_groups@ == o.hunk_groups@
        &&& f.split_editing_msg == !(key == Key::Esc || key == Key::Enter)
        &&& f.split_messages@.len() == o.split_messages@.len()
        &&& forall|g: int|
            0 <= g < o.split_messages@.len() && g != o.split_msg_cursor ==> #[trigger] f.split_messages@[g]@
                == o.split_messages@[g]@
        &&& f.split_messages@[o.split_msg_cursor as int]@ == match key {
            Key::Char(ch) => o.split_messages@[o.split_msg_cursor as int]@.push(ch),
            Key::Backspace => if o.split_messages@[o.split_msg_cursor as int]@.len() > 0 {
                o.split_messages@[o.split_msg_cursor as int]@.drop_last()
            } else {
                o.split_messages@[o.split_msg_cursor as int]@
            },
            _ => o.split_messages@[o.split_msg_cursor as int]@,
        }
    } else if key == Key::Enter {
        &&& split_written(o, f)
        &&& f.mode == if max_group(o.hunk_groups@) > 0 {
            Mode::CommitList
        } else {
            Mode::SplitView
        }
    } else {
        &&& f.plan == o.plan
        &&& f.mode == if key == Key::Esc {
            Mode::CommitList
        } else {
            Mode::SplitView
        }
        &&& f.hunk_cursor == if key == Key::Down || key == Key::Char('j') {
            cursor_down(o.hunk_cursor, o.hunk_groups@.len())
        } else if key == Key::Up || key == Key::Char('k') {
            cursor_up(o.hunk_cursor)
        } else {
            o.hunk_cursor
        }
        &&& f.hunk_groups@ == match key {
            Key::Char(ch) => if ch == ' ' {
                o.hunk_groups@.update(
                    hc,
                    if o.hunk_groups@[hc] == 0 {
                        o.next_group
                    } else {
                        0
                    },
                )
            } else if is_group_digit(ch) {
                o.hunk_groups@.update(hc, digit_of(ch))
            } else if ch == 'g' {
                o.hunk_groups@.update(hc, o.next_group)
            } else {
                o.hunk_groups@
            },
            _ => o.hunk_groups@,
        }
        &&& match key {
            Key::Char(ch) => is_group_digit(ch) ==> f.next_group == if digit_of(ch) >= o.next_group {
                (digit_of(ch) + 1) as usize
            } else {
                o.next_group
            },
            _ => true,
        }
        &&& key == Key::Char('n') && 0 < o.hunk_groups@[hc] < GROUP_SLOTS ==> f.split_editing_msg
            && f.split_msg_cursor == o.hunk_groups@[hc]
    }
}

/// What a key does while the squash target is chosen.
pub open spec fn squash_step(o: App, f: App, key: Key) -> bool {
    &&& f.plan.commits@ == o.plan.commits@
    &&& f.plan.selected@ == o.plan.selected@
    &&& f.plan.hunks_cache@ == o.plan.hunks_cache@
    &&& f.plan.loaded == o.plan.loaded
    &&& f.plan.entries@ == if key == Key::Enter && o.cursor != o.squash_source {
        with_action(
            o.plan.entries@,
            o.squash_source as int,
            RebaseAction::Squash {
                into_idx: o.plan.entries@[o.cursor as int].original_idx,
                message: None,
            },
        )
    } else {
        o.plan.entries@
    }
    &&& f.mode == if key == Key::Enter || key == Key::Esc {
        Mode::CommitList
    } else {
        Mode::SquashTarget
    }
    &&& f.cursor == if key == Key::Down || key == Key::Char('j') {
        cursor_down(o.cursor, o.plan.len())
    } else if key == Key::Up || key == Key::Char('k') {
        cursor_up(o.cursor)
    } else if key == Key::Esc {
        o.squash_source
    } else {
        o.cursor
    }
}

/// What a key does in reorder mode: `J` (or shift-`j`) moves the commit under the cursor
/// one place down, `K` (or shift-`k`) one place up, its entry and selection flag with it.
pub open spec fn reorder_step(o: App, f: App, key: Key, shift: bool) -> bool {
    let c = o.cursor as int;
    let down = key == Key::Char('J') || (shift && key == Key::Char('j'));
    let up = key == Key::Char('K') || (shift && key == Key::Char('k'));
    &&& f.plan.hunks_cache@ == o.plan.hunks_cache@
    &&& f.plan.loaded == o.plan.loaded
    &&& if down && c + 1 < o.plan.len() {
        &&& f.plan.entries@ == swap_adjacent(o.plan.entries@, c)
        &&& f.plan.commits@ == swap_adjacent(o.plan.commits@, c)
        &&& f.plan.selected@ == swap_adjacent(o.plan.selected@, c)
        &&& f.cursor == c + 1
    } else if up && c > 0 {
        &&& f.plan.entries@ == swap_adjacent(o.plan.entries@, c - 1)
        &&& f.plan.commits@ == swap_adjacent(o.plan.commits@, c - 1)
        &&& f.plan.selected@ == swap_adjacent(o.plan.selected@, c - 1)
        &&& f.cursor == c - 1
    } else {
        &&& f.plan == o.plan
        &&& f.cursor == if !down && !up && (key == Key::Down || key == Key::Char('j')) {
            cursor_down(o.cursor, o.plan.len())
        } else if !down && !up && (key == Key::Up || key == Key::Char('k')) {
            cursor_up(o.cursor)
        } else {
            o.cursor
        }
    }
    &&& f.mode == if !down && !up && (key == Key::Esc || key == Key::Enter) {
        Mode::CommitList
    } else {
        Mode::ReorderMode
    }
}

/// What a key does in the preview.
pub open spec fn preview_step(o: App, f: App, key: Key) -> bool {
    &&& f.plan == o.plan
    &&& f.cursor == o.cursor
    &&& (key == Key::Char('y') || key == Key::Enter) ==> f.should_quit && f.confirmed
    &&& f.mode == if key == Key::Esc || key == Key::Char('q') {
        Mode::CommitList
    } else {
        Mode::Preview
    }
    &&& f.diff_scroll == if key == Key::Down || key == Key::Char('j') {
        if o.diff_scroll < u16::MAX { (o.diff_scroll + 1) as u16 } else { o.diff_scroll }
    } else if key == Key::Up || key == Key::Char('k') {
        if o.diff_scroll > 0 { (o.diff_scroll - 1) as u16 } else { 0 }
    } else {
        o.diff_scroll
    }
}

impl App {
    pub open spec fn wf(&self) -> bool {
        let n = self.plan.len();
        &&& self.plan.wf()
        &&& self.cursor < n
        &&& self.squash_source < n
        &&& self.split_messages@.len() == GROUP_SLOTS
        &&& self.split_msg_cursor < GROUP_SLOTS
        &&& self.reword_cursor <= self.reword_buffer@.len()
        &&& self.next_group >= 1
        &&& self.mode == Mode::SplitView ==> {
            &&& self.split_target == self.plan.entries@[self.cursor as int].original_idx
            &&& self.plan.hunks_cache@[self.split_target as int] matches Some(hs)
            &&& hs@.len() == self.hunk_groups@.len()
            &&& self.hunk_cursor < self.hunk_groups@.len()
        }
        &&& self.pending_hunks matches Some(i) ==> {
            &&& self.mode == Mode::ActionMenu
            &&& i == self.plan.entries@[self.cursor as int].original_idx
            &&& self.plan.hunks_cache@[i as int] is None
        }
    }

    /// A session on the loaded commits, newest first: all `pick`, cursor on the newest.
    pub fn new(commits: Vec<crate::models::CommitInfo>) -> (r: App)
        requires
            commits@.len() > 0,
        ensures
            r.wf(),
            r.plan.commits@ == commits@,
            r.plan.loaded@ == commits@,
            forall|k: int| 0 <= k < commits@.len() ==> (#[trigger] r.plan.entries@[k]).original_idx == k
                && r.plan.entries@[k].action is Pick,
            forall|k: int| 0 <= k < commits@.len() ==> !#[trigger] r.plan.selected@[k],
            forall|k: int| 0 <= k < commits@.len() ==> #[trigger] r.plan.hunks_cache@[k] is None,
            r.mode == Mode::CommitList,
            r.cursor == 0,
            !r.should_quit,
            !r.confirmed,
            r.pending_hunks is None,
    {
        let plan = Plan::new(commits);
        let mut split_messages: Vec<Vec<char>> = Vec::new();
        let mut k: usize = 0;
        while k < GROUP_SLOTS
            invariant
                k <= GROUP_SLOTS,
                split_messages@.len() == k,
            decreases GROUP_SLOTS - k,
        {
            split_messages.push(Vec::new());
            k = k + 1;
        }
        App {
            plan,
            cursor: 0,
            mode: Mode::CommitList,
            should_quit: false,
            confirmed: false,
            reword_buffer: Vec::new(),
            reword_cursor: 0,
            hunk_groups: Vec::new(),
            hunk_cursor: 0,
            split_messages,
            split_msg_cursor: 0,
            split_editing_msg: false,
            next_group: 1,
            split_target: 0,
            squash_source: 0,
            pending_hunks: None,
            diff_text: String::new(),
            diff_scroll: 0,
            status: String::new(),
        }
    }

    /// Selects the newest `count` commits, and only them.
    pub fn preselect(&mut self, count: usize)
        requires
            old(self).wf(),
        ensures
            final(self).wf(),
            final(self).plan.entries@ == old(self).plan.entries@,
            final(self).plan.selected@.len() == old(self).plan.selected@.len(),
            forall|k: int| 0 <= k < final(self).plan.selected@.len() ==> #[trigger] final(self).plan.selected@[k] == (k < count),
    {
        let n = self.plan.selected.len();
        let mut k: usize = 0;
        while k < n
            invariant
                n == self.plan.selected@.len(),
                k <= n,
                self.wf(),
                self.plan.entries@ == old(self).plan.entries@,
                forall|j: int| 0 <= j < k ==> #[trigger] self.plan.selected@[j] == (j < count),
            decreases n - k,
        {
            self.plan.selected.set(k, k < count);
            k = k + 1;
        }
    }

    pub fn has_actions(&self) -> (r: bool)
        ensures
            r == has_actions(self.plan.entries@),
    {
        let mut k: usize = 0;
        while k < self.plan.entries.len()
            invariant
                k <= self.plan.entries@.len(),
                forall|j: int| 0 <= j < k ==> (#[trigger] self.plan.entries@[j]).action is Pick,
            decreases self.plan.entries.len() - k,
        {
            if !self.plan.entries[k].action.is_pick() {
                return true;
            }
            k = k + 1;
        }
        false
    }

    /// The label shown beside the entry at display position `idx`.
    pub fn action_label(&self, idx: usize) -> (r: &'static str)
        requires
            idx < self.plan.entries@.len(),
        ensures
            r@ == match self.plan.entries@[idx as int].action {
                RebaseAction::Pick => ""@,
                RebaseAction::Reword(_) => "reword"@,
                RebaseAction::Squash { .. } => "squash"@,
                RebaseAction::Fixup { .. } => "fixup"@,
                RebaseAction::Drop => "DROP"@,
                RebaseAction::Split { .. } => "split"@,
                RebaseAction::Edit => "edit"@,
            },
    {
        match &self.plan.entries[idx].action {
            RebaseAction::Pick => "",
            RebaseAction::Reword(_) => "reword",
            RebaseAction::Squash { .. } => "squash",
            RebaseAction::Fixup { .. } => "fixup",
            RebaseAction::Drop => "DROP",
            RebaseAction::Split { .. } => "split",
            RebaseAction::Edit => "edit",
        }
    }

    fn set_status(&mut self, text: &str)
        ensures
            final(self).status@ == text@,
            final(self).plan == old(self).plan,
            final(self).cursor == old(self).cursor,
            final(self).mode == old(self).mode,
            final(self).should_quit == old(self).should_quit,
            final(self).confirmed == old(self).confirmed,
            final(self).reword_buffer == old(self).reword_buffer,
            final(self).reword_cursor == old(self).reword_cursor,
            final(self).hunk_groups == old(self).hunk_groups,
            final(self).hunk_cursor == old(self).hunk_cursor,
            final(self).split_messages == old(self).split_messages,
            final(self).split_msg_cursor == old(self).split_msg_cursor,
            final(self).split_editing_msg == old(self).split_editing_msg,
            final(self).next_group == old(self).next_group,
            final(self).split_target == old(self).split_target,
            final(self).squash_source == old(self).squash_source,
            final(self).pending_hunks == old(self).pending_hunks,
            final(self).diff_text == old(self).diff_text,
            final(self).diff_scroll == old(self).diff_scroll,
    {
        self.status = String::from_str(text);
    }

    /// `text` followed by the short id of the commit at display position `pos`.
    fn status_with_commit(&self, text: &str, pos: usize) -> (r: String)
        requires
            pos < self.plan.commits@.len(),
        ensures
            r@ == text@ + self.plan.commits@[pos as int].short_id@,
    {
        let mut r = String::from_str(text);
        push_str(&mut r, self.plan.commits[pos].short_id.as_str());
        r
    }

    // --- CommitList ---
    pub fn handle_commit_list(&mut self, key: Key) -> (r: Request)
        requires
            old(self).wf(),
            old(self).mode == Mode::CommitList,
        ensures
            final(self).wf(),
            commit_list_step(*old(self), *final(self), key, r),
    {
        let n = self.plan.commits.len();
        match key {
            Key::Char('j') | Key::Down => {
                if self.cursor + 1 < n {
                    self.cursor = self.cursor + 1;
                }
            },
            Key::Char('k') | Key::Up => {
                if self.cursor > 0 {
                    self.cursor = self.cursor - 1;
                }
            },
            Key::Char(' ') => {
                let v = self.plan.selected[self.cursor];
                self.plan.selected.set(self.cursor, !v);
            },
            Key::Enter => {
                self.mode = Mode::ActionMenu;
                self.set_status("r=reword s=split q=squash f=fixup d=drop e=edit x=pick m=reorder");
            },
            Key::Char('p') => {
                if self.has_actions() {
                    self.mode = Mode::Preview;
                    self.diff_scroll = 0;
                } else {
                    self.set_status("no actions assigned yet");
                }
            },
            Key::Char('D') => {
                return Request::LoadDiff { commit: self.plan.entries[self.cursor].original_idx };
            },
            Key::Char('q') | Key::Esc => {
                self.confirmed = false;
                self.should_quit = true;
            },
            _ => {},
        }
        Request::Nothing
    }

    /// Takes the loaded diff of the commit under the cursor, or the error of loading it.
    pub fn diff_loaded(&mut self, loaded: Result<String, String>)
        requires
            old(self).wf(),
        ensures
            final(self).wf(),
            final(self).plan == old(self).plan,
            final(self).mode == old(self).mode,
            final(self).cursor == old(self).cursor,
            loaded matches Ok(t) ==> final(self).diff_text == t && final(self).diff_scroll == 0,
            loaded matches Err(e) ==> final(self).status@ == "diff error: "@ + e@,
    {
        match loaded {
            Ok(text) => {
                self.diff_text = text;
                self.diff_scroll = 0;
            },
            Err(e) => {
                let mut s = String::from_str("diff error: ");
                push_str(&mut s, e.as_str());
                self.status = s;
            },
        }
    }

    fn enter_split_view(&mut self, hunk_count: usize)
        requires
            old(self).wf(),
            old(self).pending_hunks is None,
            hunk_count > 0,
            old(self).plan.hunks_cache@[old(self).plan.entries@[old(self).cursor as int].original_idx as int] matches Some(hs)
                && hs@.len() == hunk_count,
        ensures
            final(self).wf(),
            final(self).plan == old(self).plan,
            final(self).cursor == old(self).cursor,
            final(self).pending_hunks == old(self).pending_hunks,
            split_view_opened(*final(self), old(self).plan.entries@[old(self).cursor as int].original_idx, hunk_count as nat),
    {
        self.split_target = self.plan.entries[self.cursor].original_idx;
        let mut groups: Vec<usize> = Vec::new();
        let mut k: usize = 0;
        while k < hunk_count
            invariant
                k <= hunk_count,
                groups@.len() == k,
                forall|j: int| 0 <= j < k ==> #[trigger] groups@[j] == 0,
            decreases hunk_count - k,
        {
            groups.push(0);
            k = k + 1;
        }
        self.hunk_groups = groups;
        self.hunk_cursor = 0;
        let mut msgs: Vec<Vec<char>> = Vec::new();
        let mut k: usize = 0;
        while k < GROUP_SLOTS
            invariant
                k <= GROUP_SLOTS,
                msgs@.len() == k,
            decreases GROUP_SLOTS - k,
        {
            msgs.push(Vec::new());
            k = k + 1;
        }
        self.split_messages = msgs;
        self.split_msg_cursor = 0;
        self.next_group = 1;
        self.split_editing_msg = false;
        self.mode = Mode::SplitView;
        self.set_status("space=toggle 1-9=assign g=new group n=name Enter=done");
    }

    // --- ActionMenu ---
    pub fn handle_action_menu(&mut self, key: Key) -> (r: Request)
        requires
            old(self).wf(),
            old(self).mode == Mode::ActionMenu,
            old(self).pending_hunks is None,
        ensures
            final(self).wf(),
            action_menu_step(*old(self), *final(self), key, r),
    {
        let pos = self.cursor;
        match key {
            Key::Char('r') => {
                let msg = chars_of(self.plan.commits[pos].message.as_str());
                self.reword_cursor = msg.len();
                self.reword_buffer = msg;
                self.mode = Mode::RewordEdit;
                self.set_status("editing message - Esc=done");
            },
            Key::Char('s') => {
                let own = self.plan.entries[pos].original_idx;
                match &self.plan.hunks_cache[own] {
                    Some(hs) => {
                        let count = hs.len();
                        if count == 0 {
                            self.mode = Mode::CommitList;
                            self.set_status("no hunks to split");
                        } else {
                            self.enter_split_view(count);
                        }
                    },
                    None => {
                        self.pending_hunks = Some(own);
                        return Request::LoadHunks { commit: own };
                    },
                }
            },
            Key::Char('q') => {
                self.squash_source = pos;
                self.mode = Mode::SquashTarget;
                self.set_status("select target commit to squash into (j/k, Enter)");
            },
            Key::Char('f') => {
                if pos > 0 {
                    let into = self.plan.entries[pos - 1].original_idx;
                    self.plan.set_action(pos, RebaseAction::Fixup { into_idx: into });
                    let mut s = self.status_with_commit("fixup ", pos);
                    push_str(&mut s, " into ");
                    push_str(&mut s, self.plan.commits[pos - 1].short_id.as_str());
                    self.status = s;
                } else {
                    self.set_status("cannot fixup first commit");
                }
                self.mode = Mode::CommitList;
            },
            Key::Char('d') => {
                self.plan.set_action(pos, RebaseAction::Drop);
                self.status = self.status_with_commit("drop ", pos);
                self.mode = Mode::CommitList;
            },
            Key::Char('e') => {
                self.plan.set_action(pos, RebaseAction::Edit);
                self.status = self.status_with_commit("edit stop at ", pos);
                self.mode = Mode::CommitList;
            },
            Key::Char('x') => {
                self.plan.set_action(pos, RebaseAction::Pick);
                let mut s = self.status_with_commit("reset ", pos);
                push_str(&mut s, " to pick");
                self.status = s;
                self.mode = Mode::CommitList;
            },
            Key::Char('m') => {
                self.mode = Mode::ReorderMode;
                self.set_status("J/K=move commit Esc=done");
            },
            Key::Esc => {
                self.mode = Mode::CommitList;
                self.set_status("");
            },
            _ => {},
        }
        Request::Nothing
    }

    /// Takes the decomposed hunks of the commit asked for by `Request::LoadHunks`, or the
    /// error of decomposing it: on an error, or with no hunk to split, the builder goes back
    /// to the commit list; otherwise it caches the hunks and opens the split view.
    pub fn hunks_loaded(&mut self, loaded: Result<Vec<Hunk>, String>)
        requires
            old(self).wf(),
        ensures
            final(self).wf(),
            final(self).pending_hunks is None,
            final(self).cursor == old(self).cursor,
            final(self).plan.entries@ == old(self).plan.entries@,
            final(self).plan.commits@ == old(self).plan.commits@,
            final(self).plan.selected@ == old(self).plan.selected@,
            final(self).plan.loaded == old(self).plan.loaded,
            match old(self).pending_hunks {
                None => *final(self) == *old(self),
                Some(own) => match loaded {
                    Err(e) => final(self).mode == Mode::CommitList && final(self).status@
                        == "hunk parse error: "@ + e@ && final(self).plan.hunks_cache@
                        == old(self).plan.hunks_cache@,
                    Ok(hs) => if hs@.len() == 0 {
                        final(self).mode == Mode::CommitList && final(self).status@
                            == "no hunks to split"@ && final(self).plan.hunks_cache@
                            == old(self).plan.hunks_cache@
                    } else {
                        split_view_opened(*final(self), own, hs@.len())
                            && final(self).plan.hunks_cache@ == old(self).plan.hunks_cache@.update(
                            own as int,
                            Some(hs),
                        )
                    },
                },
            },
    {
        match self.pending_hunks {
            None => {},
            Some(own) => {
                self.pending_hunks = None;
                match loaded {
                    Ok(hs) => {
                        let count = hs.len();
                        if count == 0 {
                            self.mode = Mode::CommitList;
                            self.set_status("no hunks to split");
                        } else {
                            self.plan.cache_hunks(own, hs);
                            self.enter_split_view(count);
                        }
                    },
                    Err(e) => {
                        let mut s = String::from_str("hunk parse error: ");
                        push_str(&mut s, e.as_str());
                        self.status = s;
                        self.mode = Mode::CommitList;
                    },
                }
            },
        }
    }

    // --- RewordEdit ---
    /// On Esc, the edited text becomes the commit's new message if it is neither empty nor
    /// the message it had; other keys edit the text at the text cursor.
    pub fn handle_reword_edit(&mut self, key: Key)
        requires
            old(self).wf(),
            old(self).mode == Mode::RewordEdit,
        ensures
            final(self).wf(),
            reword_step(*old(self), *final(self), key),
    {
        match key {
            Key::Esc => {
                let pos = self.cursor;
                let original = chars_of(self.plan.commits[pos].message.as_str());
                let same = crate::text::seq_equal(&self.reword_buffer, &original);
                if self.reword_buffer.len() > 0 && !same {
                    let text = string_of_range(&self.reword_buffer, 0, self.reword_buffer.len());
                    assert(self.reword_buffer@.subrange(0, self.reword_buffer@.len() as int) =~= self.reword_buffer@);
                    self.plan.set_action(pos, RebaseAction::Reword(text));
                    self.status = self.status_with_commit("reword ", pos);
                }
                self.mode = Mode::CommitList;
            },
            Key::Enter => {
                self.reword_buffer.insert(self.reword_cursor, '\n');
                if self.reword_cursor < self.reword_buffer.len() {
                    self.reword_cursor = self.reword_cursor + 1;
                }
            },
            Key::Backspace => {
                if self.reword_cursor > 0 {
                    self.reword_cursor = self.reword_cursor - 1;
                    self.reword_buffer.remove(self.reword_cursor);
                }
            },
            Key::Delete => {
                if self.reword_cursor < self.reword_buffer.len() {
                    self.reword_buffer.remove(self.reword_cursor);
                }
            },
            Key::Left => {
                if self.reword_cursor > 0 {
                    self.reword_cursor = self.reword_cursor - 1;
                }
            },
            Key::Right => {
                if self.reword_cursor < self.reword_buffer.len() {
                    self.reword_cursor = self.reword_cursor + 1;
                }
            },
            Key::Home => {
                self.reword_cursor = 0;
            },
            Key::End => {
                self.reword_cursor = self.reword_buffer.len();
            },
            Key::Char(c) => {
                self.reword_buffer.insert(self.reword_cursor, c);
                if self.reword_cursor < self.reword_buffer.len() {
                    self.reword_cursor = self.reword_cursor + 1;
                }
            },
            _ => {},
        }
    }

    // --- SplitView ---
    pub fn handle_split_view(&mut self, key: Key)
        requires
            old(self).wf(),
            old(self).mode == Mode::SplitView,
        ensures
            final(self).wf(),
            split_view_step(*old(self), *final(self), key),
    {
        if self.split_editing_msg {
            match key {
                Key::Esc | Key::Enter => {
                    self.split_editing_msg = false;
                    self.set_status("space=toggle 1-9=assign g=new group n=name Enter=done");
                },
                Key::Backspace => {
                    let idx = self.split_msg_cursor;
                    let mut m = self.split_messages[idx].clone();
                    if m.len() > 0 {
                        m.pop();
                    }
                    self.split_messages.set(idx, m);
                },
                Key::Char(c) => {
                    let idx = self.split_msg_cursor;
                    let mut m = self.split_messages[idx].clone();
                    m.push(c);
                    self.split_messages.set(idx, m);
                },
                _ => {},
            }
            return;
        }
        let count = self.hunk_groups.len();
        match key {
            Key::Char('j') | Key::Down => {
                if self.hunk_cursor + 1 < count {
                    self.hunk_cursor = self.hunk_cursor + 1;
                }
            },
            Key::Char('k') | Key::Up => {
                if self.hunk_cursor > 0 {
                    self.hunk_cursor = self.hunk_cursor - 1;
                }
            },
            Key::Char(' ') => {
                let g = if self.hunk_groups[self.hunk_cursor] == 0 {
                    self.next_group
                } else {
                    0
                };
                self.hunk_groups.set(self.hunk_cursor, g);
            },
            Key::Char(c) => {
                if '1' <= c && c <= '9' {
                    let group: usize = (c as u32 - '0' as u32) as usize;
                    self.hunk_groups.set(self.hunk_cursor, group);
                    if group >= self.next_group {
                        self.next_group = group + 1;
                    }
                } else if c == 'g' {
                    self.hunk_groups.set(self.hunk_cursor, self.next_group);
                    if self.next_group < usize::MAX {
                        self.next_group = self.next_group + 1;
                    }
                } else if c == 'n' {
                    let group = self.hunk_groups[self.hunk_cursor];
                    if group > 0 && group < GROUP_SLOTS {
                        self.split_msg_cursor = group;
                        self.split_editing_msg = true;
                        let mut s = String::from_str("editing message for group ");
                        push_decimal(&mut s, group);
                        push_str(&mut s, " (Esc=done)");
                        self.status = s;
                    }
                }
            },
            Key::Enter => {
                if self.finalize_split() {
                    self.mode = Mode::CommitList;
                }
            },
            Key::Esc => {
                self.mode = Mode::CommitList;
                self.set_status("");
            },
            _ => {},
        }
    }

    /// Writes the split of the commit under the cursor: one group per group number that
    /// holds some hunk, in number order, each with its hunks in ascending order and its
    /// typed message or `split part n`. With no hunk in any group the plan stays as it is.
    pub fn finalize_split(&mut self) -> (r: bool)
        requires
            old(self).wf(),
            old(self).mode == Mode::SplitView,
        ensures
            final(self).wf(),
            r == (max_group(old(self).hunk_groups@) > 0),
            split_written(*old(self), *final(self)),
            final(self).mode == old(self).mode,
            final(self).cursor == old(self).cursor,
            final(self).hunk_groups == old(self).hunk_groups,
            final(self).hunk_cursor == old(self).hunk_cursor,
            final(self).plan.commits@ == old(self).plan.commits@,
            final(self).plan.selected@ == old(self).plan.selected@,
            final(self).plan.hunks_cache@ == old(self).plan.hunks_cache@,
            final(self).plan.loaded == old(self).plan.loaded,
    {
        let gs = &self.hunk_groups;
        let count = gs.len();
        let mut max: usize = 0;
        let mut i: usize = 0;
        while i < count
            invariant
                count == gs@.len(),
                i <= count,
                max as int == max_group(gs@.subrange(0, i as int)),
            decreases count - i,
        {
            assert(gs@.subrange(0, i + 1).drop_last() =~= gs@.subrange(0, i as int));
            if gs[i] > max {
                max = gs[i];
            }
            i = i + 1;
        }
        assert(gs@.subrange(0, count as int) =~= gs@);
        if max == 0 {
            self.set_status("no hunks assigned to groups");
            return false;
        }
        let mut groups: Vec<SplitGroup> = Vec::new();
        let mut g: usize = 0;
        while g < max
            invariant
                count == self.hunk_groups@.len(),
                g <= max,
                self.split_messages@.len() == GROUP_SLOTS,
                groups@.map_values(|x: SplitGroup| group_view(x)) == groups_upto(
                    self.hunk_groups@,
                    self.split_messages@,
                    g as int,
                ),
                forall|j: int| 0 <= j < groups@.len() ==> selection_in_range_len(
                    count as nat,
                    (#[trigger] groups@[j]).hunk_indices@,
                ),
            decreases max - g,
        {
            let cur = g + 1;
            let indices = self.positions_in_group(cur);
            if indices.len() > 0 {
                let message = self.group_message_text(cur);
                let ghost before = groups@.map_values(|x: SplitGroup| group_view(x));
                proof {
                    lemma_positions_in_range(self.hunk_groups@, cur as int);
                }
                groups.push(SplitGroup { hunk_indices: indices, message });
                assert(groups@.map_values(|x: SplitGroup| group_view(x)) =~= before.push(
                    (positions_of(self.hunk_groups@, cur as int), group_message(self.split_messages@, cur as int)),
                ));
            }
            g = cur;
        }
        let pos = self.cursor;
        let ghost own = self.plan.entries@[pos as int].original_idx;
        proof {
            assert(self.plan.hunks_cache@[own as int] is Some);
            assert(crate::script::cached_hunks(self.plan.hunks_cache@, own as int).len() == count);
        }
        self.plan.set_action(pos, RebaseAction::Split { groups });
        let mut s = self.status_with_commit("split ", pos);
        push_str(&mut s, " into ");
        push_decimal(&mut s, max);
        push_str(&mut s, " parts");
        self.status = s;
        true
    }

    fn positions_in_group(&self, g: usize) -> (r: Vec<usize>)
        ensures
            r@ == positions_of(self.hunk_groups@, g as int),
    {
        let gs = &self.hunk_groups;
        let mut r: Vec<usize> = Vec::new();
        let mut i: usize = 0;
        while i < gs.len()
            invariant
                i <= gs@.len(),
                r@ == positions_of(gs@.subrange(0, i as int), g as int),
            decreases gs.len() - i,
        {
            assert(gs@.subrange(0, i + 1).drop_last() =~= gs@.subrange(0, i as int));
            if gs[i] == g {
                r.push(i);
            }
            i = i + 1;
        }
        assert(gs@.subrange(0, gs@.len() as int) =~= gs@);
        r
    }

    fn group_message_text(&self, g: usize) -> (r: String)
        ensures
            r@ == group_message(self.split_messages@, g as int),
    {
        if g < self.split_messages.len() && self.split_messages[g].len() > 0 {
            let m = &self.split_messages[g];
            let r = string_of_range(m, 0, m.len());
            assert(m@.subrange(0, m@.len() as int) =~= m@);
            r
        } else {
            let mut r = String::from_str("split part ");
            push_decimal(&mut r, g);
            r
        }
    }

    // --- SquashTarget ---
    /// Moves the cursor to the target; Enter on a commit other than the source gives the
    /// source a squash into the target, Enter on the source itself changes nothing.
    pub fn handle_squash_target(&mut self, key: Key)
        requires
            old(self).wf(),
            old(self).mode == Mode::SquashTarget,
        ensures
            final(self).wf(),
            squash_step(*old(self), *final(self), key),
    {
        let n = self.plan.commits.len();
        match key {
            Key::Char('j') | Key::Down => {
                if self.cursor + 1 < n {
                    self.cursor = self.cursor + 1;
                }
            },
            Key::Char('k') | Key::Up => {
                if self.cursor > 0 {
                    self.cursor = self.cursor - 1;
                }
            },
            Key::Enter => {
                let src = self.squash_source;
                if self.cursor != src {
                    let into = self.plan.entries[self.cursor].original_idx;
                    assert(into != self.plan.entries@[src as int].original_idx);
                    self.plan.set_action(src, RebaseAction::Squash { into_idx: into, message: None });
                    let mut s = self.status_with_commit("squash ", src);
                    push_str(&mut s, " into ");
                    push_str(&mut s, self.plan.commits[self.cursor].short_id.as_str());
                    self.status = s;
                }
                self.mode = Mode::CommitList;
            },
            Key::Esc => {
                self.cursor = self.squash_source;
                self.mode = Mode::CommitList;
                self.set_status("");
            },
            _ => {},
        }
    }

    // --- ReorderMode ---
    /// `J` (or shift-`j`) moves the commit under the cursor one place down, `K` (or
    /// shift-`k`) one place up, with its entry and selection flag; `j`/`k` move the cursor.
    pub fn handle_reorder(&mut self, key: Key, shift: bool)
        requires
            old(self).wf(),
            old(self).mode == Mode::ReorderMode,
        ensures
            final(self).wf(),
            reorder_step(*old(self), *final(self), key, shift),
    {
        let n = self.plan.entries.len();
        let down = key == Key::Char('J') || (shift && key == Key::Char('j'));
        let up = key == Key::Char('K') || (shift && key == Key::Char('k'));
        if down {
            if self.cursor + 1 < n {
                self.plan.move_down(self.cursor);
                self.cursor = self.cursor + 1;
            }
        } else if up {
            if self.cursor > 0 {
                self.plan.move_down(self.cursor - 1);
                self.cursor = self.cursor - 1;
            }
        } else {
            match key {
                Key::Char('j') | Key::Down => {
                    if self.cursor + 1 < n {
                        self.cursor = self.cursor + 1;
                    }
                },
                Key::Char('k') | Key::Up => {
                    if self.cursor > 0 {
                        self.cursor = self.cursor - 1;
                    }
                },
                Key::Esc | Key::Enter => {
                    self.mode = Mode::CommitList;
                    self.set_status("reorder applied");
                },
                _ => {},
            }
        }
    }

    // --- Preview ---
    pub fn handle_preview(&mut self, key: Key)
        requires
            old(self).wf(),
            old(self).mode == Mode::Preview,
        ensures
            final(self).wf(),
            preview_step(*old(self), *final(self), key),
    {
        match key {
            Key::Char('y') | Key::Enter => {
                self.confirmed = true;
                self.should_quit = true;
            },
            Key::Char('j') | Key::Down => {
                self.diff_scroll = self.diff_scroll.saturating_add(1);
            },
            Key::Char('k') | Key::Up => {
                self.diff_scroll = self.diff_scroll.saturating_sub(1);
            },
            Key::Esc | Key::Char('q') => {
                self.mode = Mode::CommitList;
            },
            _ => {},
        }
    }

    /// Hands the key to the handler of the current mode. While hunks are awaited, keys
    /// are ignored.
    pub fn handle_key(&mut self, key: Key, shift: bool) -> (r: Request)
        requires
            old(self).wf(),
        ensures
            final(self).wf(),
            old(self).pending_hunks is Some ==> *final(self) == *old(self) && r == Request::Nothing,
            old(self).pending_hunks is None ==> match old(self).mode {
                Mode::CommitList => commit_list_step(*old(self), *final(self), key, r),
                Mode::ActionMenu => action_menu_step(*old(self), *final(self), key, r),
                Mode::RewordEdit => reword_step(*old(self), *final(self), key) && r == Request::Nothing,
                Mode::SplitView => split_view_step(*old(self), *final(self), key) && r == Request::Nothing,
                Mode::SquashTarget => squash_step(*old(self), *final(self), key) && r == Request::Nothing,
                Mode::ReorderMode => reorder_step(*old(self), *final(self), key, shift) && r == Request::Nothing,
                Mode::Preview => preview_step(*old(self), *final(self), key) && r == Request::Nothing,
            },
    {
        if self.pending_hunks.is_some() {
            return Request::Nothing;
        }
        match self.mode {
            Mode::CommitList => self.handle_commit_list(key),
            Mode::ActionMenu => self.handle_action_menu(key),
            Mode::RewordEdit => {
                self.handle_reword_edit(key);
                Request::Nothing
            },
            Mode::SplitView => {
                self.handle_split_view(key);
                Request::Nothing
            },
            Mode::SquashTarget => {
                self.handle_squash_target(key);
                Request::Nothing
            },
            Mode::ReorderMode => {
                self.handle_reorder(key, shift);
                Request::Nothing
            },
            Mode::Preview => {
                self.handle_preview(key);
                Request::Nothing
            },
        }
    }

    /// The outcome of the session: the plan and the hunk cache if the preview was
    /// confirmed, a cancellation otherwise.
    pub fn finish(self) -> (r: CraftResult)
        ensures
            self.confirmed ==> (r matches CraftResult::Execute(es, cache) && es@ == self.plan.entries@
                && cache@ == self.plan.hunks_cache@),
            !self.confirmed ==> r is Cancel,
    {
        if self.confirmed {
            CraftResult::Execute(self.plan.entries, self.plan.hunks_cache)
        } else {
            CraftResult::Cancel
        }
    }
}

pub open spec fn selection_in_range_len(n: nat, sel: Seq<usize>) -> bool {
    forall|k: int| 0 <= k < sel.len() ==> sel[k] < n
}

} // verus!
