//! The control scripts that drive the rebase engine, and the decisions its hooks make.
//!
//! The engine calls two hooks: the sequence editor, once, on its generated todo list, and
//! the message editor, once per commit whose message it asks for. Both hooks call back into
//! this program, which applies [`transform_todo`] and [`next_message`].
use vstd::prelude::*;

use crate::actions::{todo_keyword, RebaseAction, SplitGroup, TodoEntry};
use crate::models::CommitInfo;
use crate::split::{generate_patch_for_hunks, patch_text, selection_in_range, Hunk};
use crate::error::CraftError;
use crate::text::{
    char_pos, char_pos_from, chars_of, decimal, lines_of, occurs_at, occurs_at_exec, push_decimal,
    push_range, push_str, split_lines, starts_with, str_starts_with,
};

verus! {

/// One line of the wanted todo list, oldest first: the keyword and the commit's short id.
#[derive(Debug, Clone)]
pub struct TodoStep {
    pub keyword: String,
    pub short_id: String,
}

/// Lines written out, each ended by a newline.
pub open spec fn join_lines(ls: Seq<Seq<char>>) -> Seq<char>
    decreases ls.len(),
{
    if ls.len() == 0 {
        Seq::empty()
    } else {
        join_lines(ls.drop_last()) + ls.last().push('\n')
    }
}

/// A todo line names the commit `id`: its second field, after the keyword, starts with `id`.
pub open spec fn names_commit(line: Seq<char>, id: Seq<char>) -> bool {
    let sp = char_pos(line, ' ');
    id.len() > 0 && sp < line.len() && occurs_at(line, id, sp + 1)
}

/// The first step at or after `k` whose commit `line` names, or `steps.len()`.
pub open spec fn step_from(line: Seq<char>, steps: Seq<TodoStep>, k: int) -> int
    decreases steps.len() - k,
{
    if k >= steps.len() {
        steps.len() as int
    } else if names_commit(line, steps[k].short_id@) {
        k
    } else {
        step_from(line, steps, k + 1)
    }
}

/// The step a todo line belongs to, or `steps.len()` for a line of no step.
pub open spec fn step_of(line: Seq<char>, steps: Seq<TodoStep>) -> int {
    step_from(line, steps, 0)
}

/// A `pick` line of a step, with the step's keyword put in place of `pick`.
pub open spec fn substituted(line: Seq<char>, steps: Seq<TodoStep>) -> Seq<char> {
    let k = step_of(line, steps);
    if k < steps.len() && starts_with(line, "pick "@) {
        steps[k].keyword@ + line.subrange(4, line.len() as int)
    } else {
        line
    }
}

/// The lines of step `k`, in their original relative order, substituted.
pub open spec fn lines_of_step(lines: Seq<Seq<char>>, steps: Seq<TodoStep>, k: int) -> Seq<
    Seq<char>,
>
    decreases lines.len(),
{
    if lines.len() == 0 {
        Seq::empty()
    } else {
        lines_of_step(lines.drop_last(), steps, k) + if step_of(lines.last(), steps) == k {
            seq![substituted(lines.last(), steps)]
        } else {
            Seq::empty()
        }
    }
}

pub open spec fn ordered_upto(lines: Seq<Seq<char>>, steps: Seq<TodoStep>, m: int) -> Seq<
    Seq<char>,
>
    decreases m,
{
    if m <= 0 {
        Seq::empty()
    } else {
        ordered_upto(lines, steps, m - 1) + lines_of_step(lines, steps, m - 1)
    }
}

/// The todo lines rearranged: the lines of each step in step order, then the lines of no
/// step in their original relative order. No line is dropped.
pub open spec fn transform_lines(lines: Seq<Seq<char>>, steps: Seq<TodoStep>) -> Seq<Seq<char>> {
    ordered_upto(lines, steps, steps.len() as int) + lines_of_step(
        lines,
        steps,
        steps.len() as int,
    )
}

/// What the sequence editor makes of the engine's todo text.
pub open spec fn transform_text(todo: Seq<char>, steps: Seq<TodoStep>) -> Seq<char> {
    join_lines(transform_lines(lines_of(todo), steps))
}

fn names_commit_exec(line: &Vec<char>, id: &Vec<char>) -> (r: bool)
    ensures
        r == names_commit(line@, id@),
{
    let sp = char_pos_from(line, 0, ' ');
    assert(line@.subrange(0, line@.len() as int) =~= line@);
    if id.len() == 0 || sp >= line.len() {
        return false;
    }
    occurs_at_exec(line, id, sp + 1)
}

fn step_of_exec(line: &Vec<char>, ids: &Vec<Vec<char>>, Ghost(steps): Ghost<Seq<TodoStep>>) -> (r: usize)
    requires
        ids@.len() == steps.len(),
        forall|k: int| 0 <= k < ids@.len() ==> ids@[k]@ == steps[k].short_id@,
    ensures
        r == step_of(line@, steps),
{
    let mut k: usize = 0;
    while k < ids.len()
        invariant
            k <= ids@.len() == steps.len(),
            forall|j: int| 0 <= j < ids@.len() ==> ids@[j]@ == steps[j].short_id@,
            step_of(line@, steps) == step_from(line@, steps, k as int),
        decreases ids.len() - k,
    {
        if names_commit_exec(line, &ids[k]) {
            return k;
        }
        k = k + 1;
    }
    k
}

/// Appends a todo line, substituted for its step, and a newline.
fn push_substituted(out: &mut String, line: &Vec<char>, k: usize, steps: &Vec<TodoStep>)
    requires
        k == step_of(line@, steps@),
    ensures
        final(out)@ == old(out)@ + substituted(line@, steps@).push('\n'),
{
    if k < steps.len() && str_starts_with(line, "pick ") {
        proof {
            reveal_strlit("pick ");
        }
        push_str(out, steps[k].keyword.as_str());
        push_range(out, line, 4, line.len());
    } else {
        push_range(out, line, 0, line.len());
        assert(line@.subrange(0, line@.len() as int) =~= line@);
    }
    out.push('\n');
    assert(final(out)@ =~= old(out)@ + substituted(line@, steps@).push('\n'));
}

proof fn lemma_join_push(ls: Seq<Seq<char>>, l: Seq<char>)
    ensures
        join_lines(ls.push(l)) == join_lines(ls) + l.push('\n'),
{
    assert(ls.push(l).drop_last() =~= ls);
}

proof fn lemma_join_concat(a: Seq<Seq<char>>, b: Seq<Seq<char>>)
    ensures
        join_lines(a + b) == join_lines(a) + join_lines(b),
    decreases b.len(),
{
    if b.len() == 0 {
        assert(a + b =~= a);
    } else {
        assert((a + b).drop_last() =~= a + b.drop_last());
        lemma_join_concat(a, b.drop_last());
    }
}

/// Appends the lines of step `m`, substituted, each with its newline.
fn push_step_lines(
    out: &mut String,
    lines: &Vec<Vec<char>>,
    which: &Vec<usize>,
    steps: &Vec<TodoStep>,
    m: usize,
    Ghost(lv): Ghost<Seq<Seq<char>>>,
)
    requires
        which@.len() == lines@.len(),
        lv == lines@.map_values(|l: Vec<char>| l@),
        forall|j: int| 0 <= j < lines@.len() ==> which@[j] == step_of(#[trigger] lines@[j]@, steps@),
    ensures
        final(out)@ == old(out)@ + join_lines(lines_of_step(lv, steps@, m as int)),
{
    let mut i: usize = 0;
    assert(lv.subrange(0, 0) =~= Seq::<Seq<char>>::empty());
    assert(old(out)@ + join_lines(Seq::<Seq<char>>::empty()) =~= old(out)@);
    while i < lines.len()
        invariant
            i <= lines@.len(),
            which@.len() == lines@.len(),
            lv == lines@.map_values(|l: Vec<char>| l@),
            forall|j: int| 0 <= j < lines@.len() ==> which@[j] == step_of(#[trigger] lines@[j]@, steps@),
            out@ == old(out)@ + join_lines(lines_of_step(lv.subrange(0, i as int), steps@, m as int)),
        decreases lines.len() - i,
    {
        let ghost pre = lines_of_step(lv.subrange(0, i as int), steps@, m as int);
        assert(lv.subrange(0, i + 1).drop_last() =~= lv.subrange(0, i as int));
        assert(lv.subrange(0, i + 1).last() == lines@[i as int]@);
        if which[i] == m {
            push_substituted(out, &lines[i], which[i], steps);
            proof {
                lemma_join_push(pre, substituted(lines@[i as int]@, steps@));
            }
            assert(lines_of_step(lv.subrange(0, i + 1), steps@, m as int) == pre.push(substituted(lines@[i as int]@, steps@)));
        } else {
            assert(lines_of_step(lv.subrange(0, i + 1), steps@, m as int) =~= pre);
        }
        i = i + 1;
    }
    assert(lv.subrange(0, lines@.len() as int) =~= lv);
}

/// The sequence editor's work: the engine's todo text with each step's `pick` replaced by
/// its keyword and the lines put in the order of the steps; lines that name no step follow,
/// in their original order.
pub fn transform_todo(todo: &str, steps: &Vec<TodoStep>) -> (r: String)
    ensures
        r@ == transform_text(todo@, steps@),
{
    let v = chars_of(todo);
    let lines = split_lines(&v);
    let ghost lv = lines@.map_values(|l: Vec<char>| l@);
    let mut ids: Vec<Vec<char>> = Vec::new();
    let mut k: usize = 0;
    while k < steps.len()
        invariant
            k <= steps@.len(),
            ids@.len() == k,
            forall|j: int| 0 <= j < k ==> ids@[j]@ == steps@[j].short_id@,
        decreases steps.len() - k,
    {
        ids.push(chars_of(steps[k].short_id.as_str()));
        k = k + 1;
    }
    let mut which: Vec<usize> = Vec::new();
    let mut i: usize = 0;
    while i < lines.len()
        invariant
            i <= lines@.len(),
            which@.len() == i,
            ids@.len() == steps@.len(),
            forall|j: int| 0 <= j < ids@.len() ==> ids@[j]@ == steps@[j].short_id@,
            forall|j: int| 0 <= j < i ==> which@[j] == step_of(#[trigger] lines@[j]@, steps@),
        decreases lines.len() - i,
    {
        let w = step_of_exec(&lines[i], &ids, Ghost(steps@));
        which.push(w);
        i = i + 1;
    }
    let mut out = String::new();
    let mut m: usize = 0;
    while m < steps.len()
        invariant
            m <= steps@.len(),
            which@.len() == lines@.len(),
            lv == lines@.map_values(|l: Vec<char>| l@),
            forall|j: int| 0 <= j < lines@.len() ==> which@[j] == step_of(#[trigger] lines@[j]@, steps@),
            out@ == join_lines(ordered_upto(lv, steps@, m as int)),
        decreases steps.len() - m,
    {
        push_step_lines(&mut out, &lines, &which, steps, m, Ghost(lv));
        proof {
            lemma_join_concat(ordered_upto(lv, steps@, m as int), lines_of_step(lv, steps@, m as int));
        }
        m = m + 1;
    }
    push_step_lines(&mut out, &lines, &which, steps, steps.len(), Ghost(lv));
    proof {
        lemma_join_concat(ordered_upto(lv, steps@, steps@.len() as int), lines_of_step(lv, steps@, steps@.len() as int));
    }
    out
}

/// No step keyword holds a space or a newline, so a substituted line keeps its fields.
pub open spec fn plain_keywords(steps: Seq<TodoStep>) -> bool {
    forall|k: int, i: int|
        0 <= k < steps.len() && 0 <= i < steps[k].keyword@.len() ==> #[trigger] steps[k].keyword@[i]
            != ' ' && steps[k].keyword@[i] != '\n'
}

proof fn lemma_char_pos_concat(a: Seq<char>, b: Seq<char>, c: char)
    requires
        forall|i: int| 0 <= i < a.len() ==> a[i] != c,
    ensures
        char_pos(a + b, c) == a.len() + char_pos(b, c),
    decreases a.len(),
{
    if a.len() > 0 {
        assert((a + b).drop_first() =~= a.drop_first() + b);
        lemma_char_pos_concat(a.drop_first(), b, c);
    } else {
        assert(a + b =~= b);
    }
}

proof fn lemma_step_from_range(line: Seq<char>, steps: Seq<TodoStep>, k: int)
    requires
        0 <= k,
    ensures
        k <= step_from(line, steps, k) <= steps.len() || (k > steps.len() && step_from(line, steps, k) == steps.len()),
    decreases steps.len() - k,
{
    if k < steps.len() && !names_commit(line, steps[k].short_id@) {
        lemma_step_from_range(line, steps, k + 1);
    }
}

proof fn lemma_substituted_keeps_step_from(line: Seq<char>, steps: Seq<TodoStep>, k: int)
    requires
        plain_keywords(steps),
        0 <= k <= steps.len(),
    ensures
        step_from(substituted(line, steps), steps, k) == step_from(line, steps, k),
    decreases steps.len() - k,
{
    let j = step_of(line, steps);
    lemma_step_from_range(line, steps, 0);
    if j < steps.len() && starts_with(line, "pick "@) {
        let kw = steps[j].keyword@;
        let rest = line.subrange(4, line.len() as int);
        let new = kw + rest;
        reveal_strlit("pick ");
        assert(line[4] == line.subrange(0, 5)[4]);
        assert(line[4] == ' ');
        assert forall|i: int| 0 <= i < kw.len() implies kw[i] != ' ' by {
            assert(steps[j].keyword@[i] != ' ');
        }
        assert(line =~= line.subrange(0, 4) + rest);
        lemma_char_pos_concat(line.subrange(0, 4), rest, ' ');
        assert(char_pos(rest, ' ') == 0);
        lemma_char_pos_concat(kw, rest, ' ');
        assert(char_pos(line, ' ') == 4);
        assert(char_pos(new, ' ') == kw.len());
        if k < steps.len() {
            let id = steps[k].short_id@;
            if names_commit(line, id) {
                assert(new.subrange((kw.len() + 1) as int, (kw.len() + 1 + id.len()) as int) =~= line.subrange(5, 5 + id.len() as int));
            }
            if names_commit(new, id) {
                assert(new.subrange((kw.len() + 1) as int, (kw.len() + 1 + id.len()) as int) =~= line.subrange(5, 5 + id.len() as int));
            }
            lemma_substituted_keeps_step_from(line, steps, k + 1);
        }
    }
}

proof fn lemma_substituted_keeps_step(line: Seq<char>, steps: Seq<TodoStep>)
    requires
        plain_keywords(steps),
    ensures
        step_of(substituted(line, steps), steps) == step_of(line, steps),
        substituted(substituted(line, steps), steps) == substituted(line, steps),
{
    lemma_substituted_keeps_step_from(line, steps, 0);
    lemma_step_from_range(line, steps, 0);
    let j = step_of(line, steps);
    if j < steps.len() && starts_with(line, "pick "@) {
        let kw = steps[j].keyword@;
        let new = substituted(line, steps);
        reveal_strlit("pick ");
        reveal_strlit("pick");
        assert(line[4] == line.subrange(0, 5)[4]);
        if starts_with(new, "pick "@) {
            assert(new[4] == new.subrange(0, 5)[4]);
            if kw.len() > 4 {
                assert(new[4] == kw[4]);
                assert(steps[j].keyword@[4] != ' ');
            } else if kw.len() < 4 {
                assert(new[kw.len() as int] == line[4]);
                assert(new[kw.len() as int] == new.subrange(0, 5)[kw.len() as int]);
            } else {
                assert forall|i: int| 0 <= i < 4 implies kw[i] == "pick"@[i] by {
                    assert(new[i] == new.subrange(0, 5)[i]);
                    assert(line[i] == line.subrange(0, 5)[i]);
                }
                assert(kw =~= "pick"@);
                assert(line =~= line.subrange(0, 4) + line.subrange(4, line.len() as int));
                assert(line.subrange(0, 4) =~= "pick"@) by {
                    assert forall|i: int| 0 <= i < 4 implies line.subrange(0, 4)[i] == "pick"@[i] by {
                        assert(line[i] == line.subrange(0, 5)[i]);
                    }
                }
                assert(new =~= line);
            }
        }
    } else {
        assert(substituted(line, steps) == line);
    }
}

proof fn lemma_step_lines_concat(x: Seq<Seq<char>>, y: Seq<Seq<char>>, steps: Seq<TodoStep>, k: int)
    ensures
        lines_of_step(x + y, steps, k) == lines_of_step(x, steps, k) + lines_of_step(y, steps, k),
    decreases y.len(),
{
    if y.len() == 0 {
        assert(x + y =~= x);
        assert(lines_of_step(x, steps, k) + Seq::<Seq<char>>::empty() =~= lines_of_step(x, steps, k));
    } else {
        assert((x + y).drop_last() =~= x + y.drop_last());
        lemma_step_lines_concat(x, y.drop_last(), steps, k);
        assert((x + y).last() == y.last());
        let tail: Seq<Seq<char>> = if step_of(y.last(), steps) == k {
            seq![substituted(y.last(), steps)]
        } else {
            Seq::empty()
        };
        assert(lines_of_step(x, steps, k) + lines_of_step(y.drop_last(), steps, k) + tail
            =~= lines_of_step(x, steps, k) + (lines_of_step(y.drop_last(), steps, k) + tail));
    }
}

proof fn lemma_step_lines_twice(lines: Seq<Seq<char>>, steps: Seq<TodoStep>, j: int, k: int)
    requires
        plain_keywords(steps),
    ensures
        lines_of_step(lines_of_step(lines, steps, j), steps, k) == if j == k {
            lines_of_step(lines, steps, j)
        } else {
            Seq::empty()
        },
    decreases lines.len(),
{
    if lines.len() > 0 {
        lemma_step_lines_twice(lines.drop_last(), steps, j, k);
        let pre = lines_of_step(lines.drop_last(), steps, j);
        let l = lines.last();
        if step_of(l, steps) == j {
            lemma_substituted_keeps_step(l, steps);
            let t = substituted(l, steps);
            assert(lines_of_step(lines, steps, j) == pre.push(t));
            assert(pre.push(t).drop_last() =~= pre);
        } else {
            assert(lines_of_step(lines, steps, j) =~= pre);
        }
    }
}

proof fn lemma_step_lines_of_ordered(lines: Seq<Seq<char>>, steps: Seq<TodoStep>, m: int, k: int)
    requires
        plain_keywords(steps),
        m >= 0,
    ensures
        lines_of_step(ordered_upto(lines, steps, m), steps, k) == if 0 <= k < m {
            lines_of_step(lines, steps, k)
        } else {
            Seq::empty()
        },
    decreases m,
{
    if m > 0 {
        lemma_step_lines_of_ordered(lines, steps, m - 1, k);
        lemma_step_lines_concat(ordered_upto(lines, steps, m - 1), lines_of_step(lines, steps, m - 1), steps, k);
        lemma_step_lines_twice(lines, steps, m - 1, k);
        if 0 <= k < m - 1 {
            assert(lines_of_step(lines, steps, k) + Seq::<Seq<char>>::empty() =~= lines_of_step(lines, steps, k));
        } else if k == m - 1 {
            assert(Seq::<Seq<char>>::empty() + lines_of_step(lines, steps, k) =~= lines_of_step(lines, steps, k));
        } else {
            assert(Seq::<Seq<char>>::empty() + Seq::<Seq<char>>::empty() =~= Seq::<Seq<char>>::empty());
        }
    } else {
        assert(ordered_upto(lines, steps, m) == Seq::<Seq<char>>::empty());
    }
}

proof fn lemma_ordered_again(lines: Seq<Seq<char>>, steps: Seq<TodoStep>, m: int)
    requires
        plain_keywords(steps),
        0 <= m <= steps.len(),
    ensures
        ordered_upto(transform_lines(lines, steps), steps, m) == ordered_upto(lines, steps, m),
    decreases m,
{
    if m > 0 {
        let n = steps.len() as int;
        lemma_ordered_again(lines, steps, m - 1);
        lemma_step_lines_concat(ordered_upto(lines, steps, n), lines_of_step(lines, steps, n), steps, m - 1);
        lemma_step_lines_of_ordered(lines, steps, n, m - 1);
        lemma_step_lines_twice(lines, steps, n, m - 1);
        assert(lines_of_step(lines, steps, m - 1) + Seq::<Seq<char>>::empty() =~= lines_of_step(lines, steps, m - 1));
    }
}

/// Applying the sequence transform to its own output changes nothing: the output is
/// already ordered and already substituted. (Keywords hold no space or newline.)
pub proof fn lemma_transform_idempotent(lines: Seq<Seq<char>>, steps: Seq<TodoStep>)
    requires
        plain_keywords(steps),
    ensures
        transform_lines(transform_lines(lines, steps), steps) == transform_lines(lines, steps),
{
    let n = steps.len() as int;
    let t = transform_lines(lines, steps);
    lemma_ordered_again(lines, steps, n);
    lemma_step_lines_concat(ordered_upto(lines, steps, n), lines_of_step(lines, steps, n), steps, n);
    lemma_step_lines_of_ordered(lines, steps, n, n);
    lemma_step_lines_twice(lines, steps, n, n);
    assert(Seq::<Seq<char>>::empty() + lines_of_step(lines, steps, n) =~= lines_of_step(lines, steps, n));
}

/// No line holds a newline.
pub open spec fn single_lines(ls: Seq<Seq<char>>) -> bool {
    forall|i: int, j: int| 0 <= i < ls.len() && 0 <= j < ls[i].len() ==> #[trigger] ls[i][j] != '\n'
}

proof fn lemma_char_pos_before(s: Seq<char>, c: char)
    ensures
        forall|i: int| 0 <= i < char_pos(s, c) && i < s.len() ==> s[i] != c,
    decreases s.len(),
{
    if s.len() > 0 && s[0] != c {
        lemma_char_pos_before(s.drop_first(), c);
        assert forall|i: int| 0 <= i < char_pos(s, c) && i < s.len() implies s[i] != c by {
            if i > 0 {
                assert(s[i] == s.drop_first()[i - 1]);
            }
        }
    }
}

proof fn lemma_lines_single(s: Seq<char>)
    ensures
        single_lines(lines_of(s)),
    decreases s.len(),
{
    if s.len() > 0 {
        let p = char_pos(s, '\n');
        crate::text::lemma_char_pos_bounds(s, '\n');
        lemma_char_pos_before(s, '\n');
        if p < s.len() {
            let rest = s.subrange(p + 1, s.len() as int);
            lemma_lines_single(rest);
            let ls = lines_of(s);
            assert forall|i: int, j: int| 0 <= i < ls.len() && 0 <= j < ls[i].len() implies #[trigger] ls[i][j] != '\n' by {
                if i == 0 {
                    assert(ls[0] == s.subrange(0, p));
                } else {
                    assert(ls[i] == lines_of(rest)[i - 1]);
                }
            }
        }
    }
}

proof fn lemma_step_lines_single(lines: Seq<Seq<char>>, steps: Seq<TodoStep>, k: int)
    requires
        single_lines(lines),
        plain_keywords(steps),
    ensures
        single_lines(lines_of_step(lines, steps, k)),
    decreases lines.len(),
{
    if lines.len() > 0 {
        let pre = lines.drop_last();
        assert forall|i: int, j: int| 0 <= i < pre.len() && 0 <= j < pre[i].len() implies #[trigger] pre[i][j] != '\n' by {
            assert(pre[i] == lines[i]);
        }
        lemma_step_lines_single(pre, steps, k);
        let l = lines.last();
        let t = substituted(l, steps);
        lemma_step_from_range(l, steps, 0);
        assert forall|j: int| 0 <= j < t.len() implies t[j] != '\n' by {
            assert(l == lines[lines.len() - 1]);
            let m = step_of(l, steps);
            if m < steps.len() && starts_with(l, "pick "@) {
                let kw = steps[m].keyword@;
                if j < kw.len() {
                    assert(steps[m].keyword@[j] != '\n');
                } else {
                    reveal_strlit("pick ");
                    assert(l.len() >= 5);
                    let jj = j - kw.len() + 4;
                    assert(t[j] == l.subrange(4, l.len() as int)[j - kw.len()]);
                    assert(t[j] == l[jj]);
                    assert(lines[lines.len() - 1][jj] != '\n');
                }
            } else {
                assert(lines[lines.len() - 1][j] != '\n');
            }
        }
        let r = lines_of_step(lines, steps, k);
        let rp = lines_of_step(pre, steps, k);
        assert forall|i: int, j: int| 0 <= i < r.len() && 0 <= j < r[i].len() implies #[trigger] r[i][j] != '\n' by {
            if i < rp.len() {
                assert(r[i] == rp[i]);
            } else {
                assert(r[i] == t);
            }
        }
    }
}

proof fn lemma_single_concat(a: Seq<Seq<char>>, b: Seq<Seq<char>>)
    requires
        single_lines(a),
        single_lines(b),
    ensures
        single_lines(a + b),
{
    assert forall|i: int, j: int| 0 <= i < (a + b).len() && 0 <= j < (a + b)[i].len() implies #[trigger] (a + b)[i][j] != '\n' by {
        if i < a.len() {
            assert((a + b)[i] == a[i]);
        } else {
            assert((a + b)[i] == b[i - a.len()]);
        }
    }
}

proof fn lemma_ordered_single(lines: Seq<Seq<char>>, steps: Seq<TodoStep>, m: int)
    requires
        single_lines(lines),
        plain_keywords(steps),
    ensures
        single_lines(ordered_upto(lines, steps, m)),
    decreases m,
{
    if m > 0 {
        lemma_ordered_single(lines, steps, m - 1);
        lemma_step_lines_single(lines, steps, m - 1);
        lemma_single_concat(ordered_upto(lines, steps, m - 1), lines_of_step(lines, steps, m - 1));
    }
}

proof fn lemma_lines_of_join(ls: Seq<Seq<char>>)
    requires
        single_lines(ls),
    ensures
        lines_of(join_lines(ls)) == ls,
    decreases ls.len(),
{
    if ls.len() > 0 {
        let first = ls[0];
        let rest = ls.drop_first();
        assert(ls =~= seq![first] + rest);
        lemma_join_concat(seq![first], rest);
        assert(seq![first].drop_last() =~= Seq::<Seq<char>>::empty());
        assert(join_lines(Seq::<Seq<char>>::empty()) =~= Seq::<char>::empty());
        assert(join_lines(seq![first]) =~= first.push('\n'));
        let s = join_lines(ls);
        assert(s =~= first + (seq!['\n'] + join_lines(rest)));
        assert forall|i: int| 0 <= i < first.len() implies first[i] != '\n' by {
            assert(ls[0][i] != '\n');
        }
        lemma_char_pos_concat(first, seq!['\n'] + join_lines(rest), '\n');
        assert((seq!['\n'] + join_lines(rest))[0] == '\n');
        assert(char_pos(s, '\n') == first.len());
        assert(s.subrange(0, first.len() as int) =~= first);
        assert(s.subrange((first.len() + 1) as int, s.len() as int) =~= join_lines(rest));
        assert forall|i: int, j: int| 0 <= i < rest.len() && 0 <= j < rest[i].len() implies #[trigger] rest[i][j] != '\n' by {
            assert(rest[i] == ls[i + 1]);
        }
        lemma_lines_of_join(rest);
        assert(lines_of(s) =~= seq![first] + rest);
    } else {
        assert(join_lines(ls) =~= Seq::<char>::empty());
    }
}

/// The sequence editor leaves its own output as it is: run on an already ordered and
/// substituted todo text, it writes the same text again.
pub proof fn lemma_transform_text_idempotent(todo: Seq<char>, steps: Seq<TodoStep>)
    requires
        plain_keywords(steps),
    ensures
        transform_text(transform_text(todo, steps), steps) == transform_text(todo, steps),
{
    let lines = lines_of(todo);
    lemma_lines_single(todo);
    let t = transform_lines(lines, steps);
    let n = steps.len() as int;
    lemma_ordered_single(lines, steps, n);
    lemma_step_lines_single(lines, steps, n);
    lemma_single_concat(ordered_upto(lines, steps, n), lines_of_step(lines, steps, n));
    lemma_lines_of_join(t);
    lemma_transform_idempotent(lines, steps);
}

/// Every entry of the plan names a loaded commit.
pub open spec fn plan_in_range(commits: Seq<CommitInfo>, entries: Seq<TodoEntry>) -> bool {
    forall|k: int| 0 <= k < entries.len() ==> (#[trigger] entries[k]).original_idx < commits.len()
}

/// The plan's entries in replay order, oldest first: the display order, newest first,
/// reversed.
pub open spec fn oldest_first(entries: Seq<TodoEntry>) -> Seq<TodoEntry> {
    entries.reverse()
}

/// The wanted todo list, one step per entry in replay order.
pub fn todo_steps(commits: &[CommitInfo], entries: &[TodoEntry]) -> (r: Vec<TodoStep>)
    requires
        plan_in_range(commits@, entries@),
    ensures
        r@.len() == entries@.len(),
        forall|k: int|
            0 <= k < r@.len() ==> {
                let e = #[trigger] oldest_first(entries@)[k];
                &&& r@[k].keyword@ == todo_keyword(e.action)
                &&& r@[k].short_id@ == commits@[e.original_idx as int].short_id@
            },
{
    let n = entries.len();
    let mut r: Vec<TodoStep> = Vec::new();
    let mut k: usize = 0;
    while k < n
        invariant
            n == entries@.len(),
            k <= n,
            r@.len() == k,
            plan_in_range(commits@, entries@),
            forall|j: int|
                0 <= j < k ==> {
                    let e = #[trigger] oldest_first(entries@)[j];
                    &&& r@[j].keyword@ == todo_keyword(e.action)
                    &&& r@[j].short_id@ == commits@[e.original_idx as int].short_id@
                },
        decreases n - k,
    {
        let e = &entries[n - 1 - k];
        assert(oldest_first(entries@)[k as int] == entries@[n - 1 - k]);
        let keyword = String::from_str(e.action.todo_keyword());
        let short_id = commits[e.original_idx].short_id.clone();
        r.push(TodoStep { keyword, short_id });
        k = k + 1;
    }
    r
}

/// The message slot of an action: a reword or a squash asks the engine's message editor
/// once. A squash without a message of its own leaves the engine's text as it is (`None`).
pub open spec fn message_slot(a: RebaseAction) -> Option<Option<Seq<char>>> {
    match a {
        RebaseAction::Reword(m) => Some(Some(m@)),
        RebaseAction::Squash { message, .. } => Some(
            match message {
                Some(m) => Some(m@),
                None => None,
            },
        ),
        _ => None,
    }
}

/// The message slots of entries taken in the given order.
pub open spec fn message_slots(es: Seq<TodoEntry>) -> Seq<Option<Seq<char>>>
    decreases es.len(),
{
    if es.len() == 0 {
        Seq::empty()
    } else {
        message_slots(es.drop_last()) + match message_slot(es.last().action) {
            Some(slot) => seq![slot],
            None => Seq::empty(),
        }
    }
}

pub open spec fn opt_view(o: Option<String>) -> Option<Seq<char>> {
    match o {
        Some(s) => Some(s@),
        None => None,
    }
}

/// The messages the message editor serves, in replay order, one per reword or squash.
pub fn editor_messages(entries: &[TodoEntry]) -> (r: Vec<Option<String>>)
    ensures
        r@.map_values(|o: Option<String>| opt_view(o)) == message_slots(oldest_first(entries@)),
{
    let n = entries.len();
    let ghost ord = oldest_first(entries@);
    let mut r: Vec<Option<String>> = Vec::new();
    let mut k: usize = 0;
    while k < n
        invariant
            n == entries@.len(),
            ord == oldest_first(entries@),
            k <= n,
            r@.map_values(|o: Option<String>| opt_view(o)) == message_slots(ord.subrange(0, k as int)),
        decreases n - k,
    {
        let e = &entries[n - 1 - k];
        assert(ord[k as int] == entries@[n - 1 - k]);
        assert(ord.subrange(0, k + 1).drop_last() =~= ord.subrange(0, k as int));
        let ghost before = r@.map_values(|o: Option<String>| opt_view(o));
        match &e.action {
            RebaseAction::Reword(m) => {
                r.push(Some(m.clone()));
                assert(r@.map_values(|o: Option<String>| opt_view(o)) =~= before.push(Some(m@)));
            },
            RebaseAction::Squash { message, .. } => {
                match message {
                    Some(m) => {
                        r.push(Some(m.clone()));
                        assert(r@.map_values(|o: Option<String>| opt_view(o)) =~= before.push(Some(m@)));
                    },
                    None => {
                        r.push(None);
                        assert(r@.map_values(|o: Option<String>| opt_view(o)) =~= before.push(None));
                    },
                }
            },
            _ => {
                assert(before + Seq::<Option<Seq<char>>>::empty() =~= before);
            },
        }
        k = k + 1;
    }
    assert(ord.subrange(0, n as int) =~= ord);
    r
}

/// The message editor's decision on one call: with `counter` calls made before, it serves
/// slot `counter` if there is one and nothing otherwise, and the next call sees `counter + 1`.
/// It never serves a slot at or beyond `slots`; where it serves nothing, the destination
/// stays as the engine wrote it.
pub fn next_message(counter: usize, slots: usize) -> (r: (Option<usize>, usize))
    ensures
        r.0 == (if counter < slots {
            Some(counter)
        } else {
            None::<usize>
        }),
        r.0 matches Some(i) ==> i < slots,
        r.1 == if counter < usize::MAX {
            (counter + 1) as usize
        } else {
            counter
        },
{
    let serve = if counter < slots {
        Some(counter)
    } else {
        None
    };
    (serve, counter.saturating_add(1))
}

/// The body of a single-quoted shell word: each `'` becomes `'\''`.
pub open spec fn shell_escape(s: Seq<char>) -> Seq<char>
    decreases s.len(),
{
    if s.len() == 0 {
        Seq::empty()
    } else {
        shell_escape(s.drop_last()) + if s.last() == '\'' {
            seq!['\'', '\\', '\'', '\'']
        } else {
            seq![s.last()]
        }
    }
}

/// `s` as one single-quoted shell word.
pub open spec fn shell_quote(s: Seq<char>) -> Seq<char> {
    seq!['\''] + shell_escape(s) + seq!['\'']
}

fn push_quoted(out: &mut String, s: &str)
    ensures
        final(out)@ == old(out)@ + shell_quote(s@),
{
    let v = chars_of(s);
    out.push('\'');
    let ghost start = out@;
    let mut i: usize = 0;
    while i < v.len()
        invariant
            i <= v@.len(),
            out@ == start + shell_escape(v@.subrange(0, i as int)),
        decreases v.len() - i,
    {
        assert(v@.subrange(0, i + 1).drop_last() =~= v@.subrange(0, i as int));
        if v[i] == '\'' {
            out.push('\'');
            out.push('\\');
            out.push('\'');
            out.push('\'');
        } else {
            out.push(v[i]);
        }
        assert(out@ =~= start + shell_escape(v@.subrange(0, i + 1)));
        i = i + 1;
    }
    out.push('\'');
    assert(v@.subrange(0, v@.len() as int) =~= v@);
    assert(out@ =~= old(out)@ + shell_quote(s@));
}

/// The steps handed to the sequence editor as arguments, keyword and short id of each.
pub open spec fn step_args(steps: Seq<TodoStep>) -> Seq<char>
    decreases steps.len(),
{
    if steps.len() == 0 {
        Seq::empty()
    } else {
        step_args(steps.drop_last()) + " "@ + shell_quote(steps.last().keyword@) + " "@
            + shell_quote(steps.last().short_id@)
    }
}

/// The sequence-editor hook: it hands the todo file and the steps to `exe`.
pub open spec fn sequence_editor_script(exe: Seq<char>, steps: Seq<TodoStep>) -> Seq<char> {
    "#!/bin/sh\nexec "@ + shell_quote(exe) + " craft-sequence-edit \"$1\""@ + step_args(steps)
        + "\n"@
}

pub fn write_sequence_editor(exe: &str, steps: &Vec<TodoStep>) -> (r: String)
    ensures
        r@ == sequence_editor_script(exe@, steps@),
{
    let mut r = String::new();
    push_str(&mut r, "#!/bin/sh\nexec ");
    push_quoted(&mut r, exe);
    push_str(&mut r, " craft-sequence-edit \"$1\"");
    let ghost start = r@;
    let mut k: usize = 0;
    while k < steps.len()
        invariant
            k <= steps@.len(),
            r@ == start + step_args(steps@.subrange(0, k as int)),
        decreases steps.len() - k,
    {
        assert(steps@.subrange(0, k + 1).drop_last() =~= steps@.subrange(0, k as int));
        push_str(&mut r, " ");
        push_quoted(&mut r, steps[k].keyword.as_str());
        push_str(&mut r, " ");
        push_quoted(&mut r, steps[k].short_id.as_str());
        assert(r@ =~= start + step_args(steps@.subrange(0, k + 1)));
        k = k + 1;
    }
    push_str(&mut r, "\n");
    assert(steps@.subrange(0, steps@.len() as int) =~= steps@);
    assert(r@ =~= sequence_editor_script(exe@, steps@));
    r
}

/// The message-editor hook: it hands `exe` the staging directory, the number of slots and
/// the file to fill.
pub open spec fn message_editor_script(exe: Seq<char>, dir: Seq<char>, slots: nat) -> Seq<char> {
    "#!/bin/sh\nexec "@ + shell_quote(exe) + " craft-message-edit "@ + shell_quote(dir) + " "@
        + decimal(slots) + " \"$1\"\n"@
}

pub fn write_commit_editor(exe: &str, dir: &str, slots: usize) -> (r: String)
    ensures
        r@ == message_editor_script(exe@, dir@, slots as nat),
{
    let mut r = String::new();
    push_str(&mut r, "#!/bin/sh\nexec ");
    push_quoted(&mut r, exe);
    push_str(&mut r, " craft-message-edit ");
    push_quoted(&mut r, dir);
    push_str(&mut r, " ");
    push_decimal(&mut r, slots);
    push_str(&mut r, " \"$1\"\n");
    assert(r@ =~= message_editor_script(exe@, dir@, slots as nat));
    r
}

/// The name of the patch file of group `g` of the commit at position `idx`.
pub open spec fn patch_name(idx: nat, g: nat) -> Seq<char> {
    "patch_"@ + decimal(idx) + "_"@ + decimal(g) + ".patch"@
}

/// The commands that commit the groups of one split commit, one patch each.
pub open spec fn group_cmds(dir: Seq<char>, idx: nat, groups: Seq<SplitGroup>) -> Seq<char>
    decreases groups.len(),
{
    if groups.len() == 0 {
        Seq::empty()
    } else {
        group_cmds(dir, idx, groups.drop_last()) + "git apply --cached "@ + shell_quote(
            dir + "/"@ + patch_name(idx, (groups.len() - 1) as nat),
        ) + "\ngit commit -m "@ + shell_quote(groups.last().message@) + "\n\n"@
    }
}

/// The recipe of one split commit: undo the replayed commit, keeping its changes in the
/// working tree, commit each group from its patch, and let the rebase go on.
pub open spec fn commit_recipe(dir: Seq<char>, idx: nat, groups: Seq<SplitGroup>) -> Seq<char> {
    "git reset HEAD^\n\n"@ + group_cmds(dir, idx, groups) + "git rebase --continue\n"@
}

/// The recipes of the split commits among `es`, in the order of `es`.
pub open spec fn recipes(dir: Seq<char>, es: Seq<TodoEntry>) -> Seq<char>
    decreases es.len(),
{
    if es.len() == 0 {
        Seq::empty()
    } else {
        recipes(dir, es.drop_last()) + match es.last().action {
            RebaseAction::Split { groups } => commit_recipe(
                dir,
                es.last().original_idx as nat,
                groups@,
            ),
            _ => Seq::empty(),
        }
    }
}

/// The split-automation script, with its patches under `dir`.
pub open spec fn split_script(dir: Seq<char>, entries: Seq<TodoEntry>) -> Seq<char> {
    "#!/bin/sh\nset -e\n\n"@ + recipes(dir, oldest_first(entries))
}

/// The patch files of one split commit: name and text of each group's patch.
pub open spec fn group_patch_files(idx: nat, groups: Seq<SplitGroup>, hs: Seq<Hunk>) -> Seq<
    (Seq<char>, Seq<char>),
>
    decreases groups.len(),
{
    if groups.len() == 0 {
        Seq::empty()
    } else {
        group_patch_files(idx, groups.drop_last(), hs).push(
            (
                patch_name(idx, (groups.len() - 1) as nat),
                patch_text(hs, groups.last().hunk_indices@),
            ),
        )
    }
}

pub open spec fn cached_hunks(cache: Seq<Option<Vec<Hunk>>>, idx: int) -> Seq<Hunk> {
    match cache[idx] {
        Some(hs) => hs@,
        None => Seq::empty(),
    }
}

/// The patch files of the split commits among `es`, in the order of `es`.
pub open spec fn patch_files(es: Seq<TodoEntry>, cache: Seq<Option<Vec<Hunk>>>) -> Seq<
    (Seq<char>, Seq<char>),
>
    decreases es.len(),
{
    if es.len() == 0 {
        Seq::empty()
    } else {
        patch_files(es.drop_last(), cache) + match es.last().action {
            RebaseAction::Split { groups } => group_patch_files(
                es.last().original_idx as nat,
                groups@,
                cached_hunks(cache, es.last().original_idx as int),
            ),
            _ => Seq::empty(),
        }
    }
}

/// A split entry can be carried out: its hunks are cached, and its groups name only them.
pub open spec fn split_entry_ready(e: TodoEntry, cache: Seq<Option<Vec<Hunk>>>) -> bool {
    match e.action {
        RebaseAction::Split { groups } => {
            &&& e.original_idx < cache.len()
            &&& cache[e.original_idx as int] is Some
            &&& forall|g: int|
                0 <= g < groups@.len() ==> selection_in_range(
                    cached_hunks(cache, e.original_idx as int),
                    (#[trigger] groups@[g]).hunk_indices@,
                )
        },
        _ => true,
    }
}

pub open spec fn split_ready(entries: Seq<TodoEntry>, cache: Seq<Option<Vec<Hunk>>>) -> bool {
    forall|k: int| 0 <= k < entries.len() ==> split_entry_ready(#[trigger] entries[k], cache)
}

/// A patch file of the split recipe: its name within the staging directory, and its text.
#[derive(Debug, Clone)]
pub struct PatchFile {
    pub name: String,
    pub content: String,
}

/// The split-automation script and the patch files it applies.
#[derive(Debug, Clone)]
pub struct SplitRecipe {
    pub script: String,
    pub patches: Vec<PatchFile>,
}

pub open spec fn patch_file_view(p: PatchFile) -> (Seq<char>, Seq<char>) {
    (p.name@, p.content@)
}

fn indices_in_range(sel: &Vec<usize>, n: usize) -> (r: bool)
    ensures
        r == (forall|k: int| 0 <= k < sel@.len() ==> sel@[k] < n),
{
    let mut k: usize = 0;
    while k < sel.len()
        invariant
            k <= sel@.len(),
            forall|j: int| 0 <= j < k ==> sel@[j] < n,
        decreases sel.len() - k,
    {
        if sel[k] >= n {
            return false;
        }
        k = k + 1;
    }
    true
}

fn check_entry(e: &TodoEntry, cache: &Vec<Option<Vec<Hunk>>>) -> (r: Result<(), CraftError>)
    ensures
        r is Ok <==> split_entry_ready(*e, cache@),
        r matches Err(err) ==> err is MissingHunks || err is HunkOutOfRange,
{
    match &e.action {
        RebaseAction::Split { groups } => {
            if e.original_idx >= cache.len() {
                return Err(CraftError::MissingHunks { commit: e.original_idx });
            }
            match &cache[e.original_idx] {
                Some(hs) => {
                    let mut g: usize = 0;
                    while g < groups.len()
                        invariant
                            g <= groups@.len(),
                            e.action == (RebaseAction::Split { groups: *groups }),
                            e.original_idx < cache@.len(),
                            cache@[e.original_idx as int] == Some(*hs),
                            forall|j: int|
                                0 <= j < g ==> selection_in_range(
                                    hs@,
                                    (#[trigger] groups@[j]).hunk_indices@,
                                ),
                        decreases groups.len() - g,
                    {
                        if !indices_in_range(&groups[g].hunk_indices, hs.len()) {
                            assert(cached_hunks(cache@, e.original_idx as int) == hs@);
                            assert(!selection_in_range(hs@, groups@[g as int].hunk_indices@));
                            assert(!split_entry_ready(*e, cache@)) by {
                                let gi = g as int;
                                assert(0 <= gi < groups@.len());
                                assert(!(forall|gg: int|
                                    0 <= gg < groups@.len() ==> selection_in_range(
                                        cached_hunks(cache@, e.original_idx as int),
                                        (#[trigger] groups@[gg]).hunk_indices@,
                                    )));
                                match e.action {
                                    RebaseAction::Split { groups: gs } => {
                                        assert(gs == *groups);
                                    },
                                    _ => {},
                                }
                            }
                            return Err(CraftError::HunkOutOfRange { commit: e.original_idx });
                        }
                        g = g + 1;
                    }
                    assert(cached_hunks(cache@, e.original_idx as int) == hs@);
                    Ok(())
                },
                None => Err(CraftError::MissingHunks { commit: e.original_idx }),
            }
        },
        _ => Ok(()),
    }
}

/// Checks that every split entry can be carried out.
pub fn check_split_ready(entries: &[TodoEntry], cache: &Vec<Option<Vec<Hunk>>>) -> (r: Result<
    (),
    CraftError,
>)
    ensures
        r is Ok <==> split_ready(entries@, cache@),
        r matches Err(err) ==> err is MissingHunks || err is HunkOutOfRange,
{
    let mut k: usize = 0;
    while k < entries.len()
        invariant
            k <= entries@.len(),
            forall|j: int| 0 <= j < k ==> split_entry_ready(#[trigger] entries@[j], cache@),
        decreases entries.len() - k,
    {
        match check_entry(&entries[k], cache) {
            Ok(()) => {},
            Err(e) => {
                return Err(e);
            },
        }
        k = k + 1;
    }
    Ok(())
}

fn push_patch_path(out: &mut String, dir: &str, idx: usize, g: usize)
    ensures
        final(out)@ == old(out)@ + shell_quote(dir@ + "/"@ + patch_name(idx as nat, g as nat)),
{
    let mut path = String::from_str(dir);
    push_str(&mut path, "/");
    let name = patch_file_name(idx, g);
    push_str(&mut path, name.as_str());
    push_quoted(out, path.as_str());
    assert(path@ =~= dir@ + "/"@ + patch_name(idx as nat, g as nat));
}

fn patch_file_name(idx: usize, g: usize) -> (r: String)
    ensures
        r@ == patch_name(idx as nat, g as nat),
{
    let mut r = String::new();
    push_str(&mut r, "patch_");
    push_decimal(&mut r, idx);
    push_str(&mut r, "_");
    push_decimal(&mut r, g);
    push_str(&mut r, ".patch");
    assert(r@ =~= patch_name(idx as nat, g as nat));
    r
}

/// Appends the recipe of one split commit and collects its patch files.
fn push_commit_recipe(
    out: &mut String,
    patches: &mut Vec<PatchFile>,
    dir: &str,
    idx: usize,
    groups: &Vec<SplitGroup>,
    hs: &Vec<Hunk>,
)
    requires
        forall|g: int| 0 <= g < groups@.len() ==> selection_in_range(hs@, (#[trigger] groups@[g]).hunk_indices@),
    ensures
        final(out)@ == old(out)@ + commit_recipe(dir@, idx as nat, groups@),
        final(patches)@.map_values(|p: PatchFile| patch_file_view(p)) == old(patches)@.map_values(
            |p: PatchFile| patch_file_view(p),
        ) + group_patch_files(idx as nat, groups@, hs@),
{
    push_str(out, "git reset HEAD^\n\n");
    let ghost start = out@;
    let ghost pstart = patches@.map_values(|p: PatchFile| patch_file_view(p));
    let mut g: usize = 0;
    while g < groups.len()
        invariant
            g <= groups@.len(),
            forall|j: int| 0 <= j < groups@.len() ==> selection_in_range(hs@, (#[trigger] groups@[j]).hunk_indices@),
            out@ == start + group_cmds(dir@, idx as nat, groups@.subrange(0, g as int)),
            patches@.map_values(|p: PatchFile| patch_file_view(p)) == pstart + group_patch_files(
                idx as nat,
                groups@.subrange(0, g as int),
                hs@,
            ),
        decreases groups.len() - g,
    {
        let ghost pre = groups@.subrange(0, g as int);
        assert(groups@.subrange(0, g + 1).drop_last() =~= pre);
        let group = &groups[g];
        push_str(out, "git apply --cached ");
        push_patch_path(out, dir, idx, g);
        push_str(out, "\ngit commit -m ");
        push_quoted(out, group.message.as_str());
        push_str(out, "\n\n");
        assert(out@ =~= start + group_cmds(dir@, idx as nat, groups@.subrange(0, g + 1)));
        let content = generate_patch_for_hunks(hs.as_slice(), group.hunk_indices.as_slice());
        let name = patch_file_name(idx, g);
        let ghost before = patches@.map_values(|p: PatchFile| patch_file_view(p));
        patches.push(PatchFile { name, content });
        assert(patches@.map_values(|p: PatchFile| patch_file_view(p)) =~= before.push(
            (patch_name(idx as nat, g as nat), patch_text(hs@, group.hunk_indices@)),
        ));
        assert(pstart + group_patch_files(idx as nat, groups@.subrange(0, g + 1), hs@) =~= (pstart
            + group_patch_files(idx as nat, pre, hs@)).push(
            (patch_name(idx as nat, g as nat), patch_text(hs@, group.hunk_indices@)),
        ));
        g = g + 1;
    }
    assert(groups@.subrange(0, groups@.len() as int) =~= groups@);
    push_str(out, "git rebase --continue\n");
    assert(out@ =~= old(out)@ + commit_recipe(dir@, idx as nat, groups@));
}

/// The split-automation script for the plan and the patch files it applies, or the first
/// split entry that cannot be carried out.
pub fn write_split_automation(
    dir: &str,
    entries: &[TodoEntry],
    cache: &Vec<Option<Vec<Hunk>>>,
) -> (r: Result<SplitRecipe, CraftError>)
    ensures
        r is Ok <==> split_ready(entries@, cache@),
        r matches Err(err) ==> err is MissingHunks || err is HunkOutOfRange,
        r matches Ok(rec) ==> {
            &&& rec.script@ == split_script(dir@, entries@)
            &&& rec.patches@.map_values(|p: PatchFile| patch_file_view(p)) == patch_files(
                oldest_first(entries@),
                cache@,
            )
        },
{
    match check_split_ready(entries, cache) {
        Ok(()) => {},
        Err(e) => {
            return Err(e);
        },
    }
    let n = entries.len();
    let ghost ord = oldest_first(entries@);
    let mut script = String::new();
    push_str(&mut script, "#!/bin/sh\nset -e\n\n");
    let ghost start = script@;
    let mut patches: Vec<PatchFile> = Vec::new();
    let mut k: usize = 0;
    while k < n
        invariant
            n == entries@.len(),
            ord == oldest_first(entries@),
            k <= n,
            split_ready(entries@, cache@),
            script@ == start + recipes(dir@, ord.subrange(0, k as int)),
            patches@.map_values(|p: PatchFile| patch_file_view(p)) == patch_files(
                ord.subrange(0, k as int),
                cache@,
            ),
        decreases n - k,
    {
        let e = &entries[n - 1 - k];
        assert(ord[k as int] == entries@[n - 1 - k]);
        assert(ord.subrange(0, k + 1).drop_last() =~= ord.subrange(0, k as int));
        assert(split_entry_ready(entries@[n - 1 - k], cache@));
        match &e.action {
            RebaseAction::Split { groups } => {
                match &cache[e.original_idx] {
                    Some(hs) => {
                        push_commit_recipe(&mut script, &mut patches, dir, e.original_idx, groups, hs);
                    },
                    None => {},
                }
            },
            _ => {
                assert(script@ =~= start + recipes(dir@, ord.subrange(0, k + 1)));
                assert(patches@.map_values(|p: PatchFile| patch_file_view(p)) =~= patch_files(
                    ord.subrange(0, k + 1),
                    cache@,
                ));
            },
        }
        k = k + 1;
    }
    assert(ord.subrange(0, n as int) =~= ord);
    Ok(SplitRecipe { script, patches })
}

} // verus!
