//! Choosing an AI command-line provider, and preparing what is sent to it and what comes
//! back from it.
use vstd::prelude::*;

use crate::text::{
    chars_of, decimal, ends_with, find_from, is_whitespace, is_ws, lines_of,
    occurs_at, push_decimal, push_range, push_str, split_lines, starts_with, str_ends_with,
    str_starts_with, string_of_range, trim, trim_bounds, trim_start, trim_string,
};

verus! {

/// The most characters of a diff handed to a provider.
pub const MAX_DIFF_CHARS: usize = 8000;

#[derive(Debug, Clone, Copy, PartialEq, Eq, Structural)]
pub enum AiProvider {
    Claude,
    Codex,
    Gemini,
}

/// The first available provider, in the order of the variants, where `installed[i]` tells
/// whether the command of the `i`-th one is installed.
pub fn detect_provider(installed: [bool; 3]) -> (r: Option<AiProvider>)
    ensures
        r == if installed@[0] {
            Some(AiProvider::Claude)
        } else if installed@[1] {
            Some(AiProvider::Codex)
        } else if installed@[2] {
            Some(AiProvider::Gemini)
        } else {
            None
        },
{
    if installed[0] {
        Some(AiProvider::Claude)
    } else if installed[1] {
        Some(AiProvider::Codex)
    } else if installed[2] {
        Some(AiProvider::Gemini)
    } else {
        None
    }
}

/// A line without the `'\r'` of a `"\r\n"` ending.
pub open spec fn strip_cr(l: Seq<char>) -> Seq<char> {
    if l.len() > 0 && l.last() == '\r' {
        l.drop_last()
    } else {
        l
    }
}

/// Lines joined with `'\n'` between them.
pub open spec fn join_newline(ls: Seq<Seq<char>>) -> Seq<char>
    decreases ls.len(),
{
    if ls.len() == 0 {
        Seq::empty()
    } else if ls.len() == 1 {
        ls[0]
    } else {
        join_newline(ls.drop_last()) + seq!['\n'] + ls.last()
    }
}

/// A provider's answer without white space around it and, where it is wrapped in a
/// markdown code block of at least three lines, without the fence lines.
pub open spec fn stripped_answer(text: Seq<char>) -> Seq<char> {
    let t = trim(text);
    if starts_with(t, "```"@) && ends_with(t, "```"@) {
        let ls = lines_of(t).map_values(|l: Seq<char>| strip_cr(l));
        if ls.len() < 3 {
            t
        } else {
            trim(join_newline(ls.subrange(1, ls.len() - 1)))
        }
    } else {
        t
    }
}

pub fn strip_code_blocks(text: &str) -> (r: String)
    ensures
        r@ == stripped_answer(text@),
{
    let trimmed = trim_string(text);
    let v = chars_of(trimmed.as_str());
    if !(str_starts_with(&v, "```") && str_ends_with(&v, "```")) {
        return trimmed;
    }
    let lines = split_lines(&v);
    let ghost ls = lines_of(v@).map_values(|l: Seq<char>| strip_cr(l));
    assert(lines@.map_values(|l: Vec<char>| l@).map_values(|l: Seq<char>| strip_cr(l)) =~= ls);
    if lines.len() < 3 {
        return trimmed;
    }
    let mut joined = String::new();
    let mut i: usize = 1;
    let last = lines.len() - 1;
    while i < last
        invariant
            1 <= i <= last,
            last + 1 == lines@.len(),
            lines@.len() == ls.len(),
            forall|k: int| 0 <= k < ls.len() ==> strip_cr(#[trigger] lines@[k]@) == ls[k],
            joined@ == join_newline(ls.subrange(1, i as int)),
        decreases last - i,
    {
        let l = &lines[i];
        let end: usize = if l.len() > 0 && l[l.len() - 1] == '\r' {
            l.len() - 1
        } else {
            l.len()
        };
        assert(l@.subrange(0, end as int) =~= strip_cr(l@));
        if i > 1 {
            joined.push('\n');
        }
        push_range(&mut joined, l, 0, end);
        assert(ls.subrange(1, i + 1).drop_last() =~= ls.subrange(1, i as int));
        assert(joined@ =~= join_newline(ls.subrange(1, i + 1)));
        i = i + 1;
    }
    trim_string(joined.as_str())
}

/// The position of the last `c` in `s`, or `-1`.
pub open spec fn last_pos(s: Seq<char>, c: char) -> int
    decreases s.len(),
{
    if s.len() == 0 {
        -1
    } else if s.last() == c {
        s.len() - 1
    } else {
        last_pos(s.drop_last(), c)
    }
}

proof fn lemma_last_pos_bounds(s: Seq<char>, c: char)
    ensures
        -1 <= last_pos(s, c) < s.len(),
    decreases s.len(),
{
    if s.len() > 0 && s.last() != c {
        lemma_last_pos_bounds(s.drop_last(), c);
    }
}

/// Where a cut of `s` ends: after its last full line, or at its end if it has no newline.
pub open spec fn cut_point(s: Seq<char>) -> int {
    if last_pos(s, '\n') < 0 {
        s.len() as int
    } else {
        last_pos(s, '\n')
    }
}

fn cut_point_exec(v: &Vec<char>, len: usize) -> (r: usize)
    requires
        len <= v@.len(),
    ensures
        r as int == cut_point(v@.subrange(0, len as int)),
        r <= len,
{
    let mut i = len;
    while i > 0 && v[i - 1] != '\n'
        invariant
            i <= len <= v@.len(),
            last_pos(v@.subrange(0, len as int), '\n') == last_pos(v@.subrange(0, i as int), '\n'),
        decreases i,
    {
        assert(v@.subrange(0, i as int).drop_last() =~= v@.subrange(0, i - 1));
        i = i - 1;
    }
    proof {
        lemma_last_pos_bounds(v@.subrange(0, len as int), '\n');
    }
    if i == 0 {
        assert(v@.subrange(0, 0).len() == 0);
        len
    } else {
        i - 1
    }
}

/// The summary and first full lines of a diff with very many files.
pub open spec fn simple_truncation(diff: Seq<char>, file_count: nat) -> Seq<char> {
    let budget = (MAX_DIFF_CHARS - 200) as int;
    let head = if diff.len() <= budget {
        diff
    } else {
        diff.subrange(0, budget)
    };
    let cut = cut_point(head);
    "["@ + decimal(file_count) + " FILES CHANGED — showing first "@ + decimal(cut as nat)
        + " chars of "@ + decimal(diff.len()) + " total]\n\n"@ + head.subrange(0, cut) + "\n\n[TRUNCATED]"@
}

pub fn truncate_simple(diff: &str, file_count: usize) -> (r: String)
    ensures
        r@ == simple_truncation(diff@, file_count as nat),
{
    let v = chars_of(diff);
    let budget: usize = MAX_DIFF_CHARS - 200;
    let take = if v.len() <= budget {
        v.len()
    } else {
        budget
    };
    assert(v@.subrange(0, v@.len() as int) =~= v@);
    let cut = cut_point_exec(&v, take);
    let mut r = String::from_str("[");
    push_decimal(&mut r, file_count);
    push_str(&mut r, " FILES CHANGED — showing first ");
    push_decimal(&mut r, cut);
    push_str(&mut r, " chars of ");
    push_decimal(&mut r, v.len());
    push_str(&mut r, " total]\n\n");
    push_range(&mut r, &v, 0, cut);
    push_str(&mut r, "\n\n[TRUNCATED]");
    let ghost head = if v@.len() <= budget { v@ } else { v@.subrange(0, budget as int) };
    assert(head =~= v@.subrange(0, take as int));
    assert(head.subrange(0, cut as int) =~= v@.subrange(0, cut as int));
    r
}

/// The first position at or after `from` where `p` occurs in `s`, or `-1`.
pub open spec fn next_occ(s: Seq<char>, p: Seq<char>, from: int) -> int
    decreases s.len() + 1 - from,
{
    if from < 0 || from > s.len() {
        -1
    } else if occurs_at(s, p, from) {
        from
    } else {
        next_occ(s, p, from + 1)
    }
}

proof fn lemma_next_occ_found(s: Seq<char>, p: Seq<char>, from: int, i: int)
    requires
        0 <= from <= i,
        occurs_at(s, p, i),
        forall|j: int| from <= j < i ==> !occurs_at(s, p, j),
    ensures
        next_occ(s, p, from) == i,
    decreases i - from,
{
    if from < i {
        lemma_next_occ_found(s, p, from + 1, i);
    }
}

proof fn lemma_next_occ_none(s: Seq<char>, p: Seq<char>, from: int)
    requires
        0 <= from,
        forall|j: int| from <= j ==> !occurs_at(s, p, j),
    ensures
        next_occ(s, p, from) == -1,
    decreases s.len() + 1 - from,
{
    if from <= s.len() {
        lemma_next_occ_none(s, p, from + 1);
    }
}

/// The trimmed text of `s[a..b]`, as a one-element list, or nothing where it is blank.
pub open spec fn nonblank_chunk(s: Seq<char>, a: int, b: int) -> Seq<Seq<char>> {
    if a < b && trim(s.subrange(a, b)).len() > 0 {
        seq![trim(s.subrange(a, b))]
    } else {
        Seq::empty()
    }
}

/// The per-file chunks of `s` from `start` on, where the search for the next header
/// `p` goes on at `from`.
pub open spec fn chunks_from(s: Seq<char>, p: Seq<char>, start: int, from: int) -> Seq<Seq<char>>
    decreases s.len() + 1 - from,
{
    let i = next_occ(s, p, from);
    if i < from || from < 0 || i > s.len() {
        nonblank_chunk(s, start, s.len() as int)
    } else {
        nonblank_chunk(s, start, i) + chunks_from(s, p, i, i + 1)
    }
}

/// A diff cut before each `diff --git` header, each piece trimmed, blank pieces left out.
pub open spec fn file_chunks(diff: Seq<char>) -> Seq<Seq<char>> {
    chunks_from(diff, "diff --git"@, 0, 0)
}

fn push_nonblank_chunk(out: &mut Vec<String>, v: &Vec<char>, a: usize, b: usize)
    requires
        a <= v@.len(),
        b <= v@.len(),
    ensures
        final(out)@.map_values(|x: String| x@) == old(out)@.map_values(|x: String| x@) + nonblank_chunk(
            v@,
            a as int,
            b as int,
        ),
{
    if a < b {
        let (lo, hi) = trim_bounds(v, a, b);
        if lo < hi {
            let ghost before = out@.map_values(|x: String| x@);
            out.push(string_of_range(v, lo, hi));
            assert(out@.map_values(|x: String| x@) =~= before + nonblank_chunk(v@, a as int, b as int));
            return;
        }
    }
    assert(out@.map_values(|x: String| x@) =~= out@.map_values(|x: String| x@) + Seq::<Seq<char>>::empty());
}

pub fn split_diff_by_file(diff: &str) -> (r: Vec<String>)
    ensures
        r@.map_values(|x: String| x@) == file_chunks(diff@),
{
    let v = chars_of(diff);
    let p = chars_of("diff --git");
    proof {
        reveal_strlit("diff --git");
    }
    assert(p@.len() == 10);
    let mut out: Vec<String> = Vec::new();
    let mut start: usize = 0;
    let mut from: usize = 0;
    while from <= v.len()
        invariant
            start <= from <= v@.len() + 1,
            start <= v@.len(),
            v@ == diff@,
            p@ == "diff --git"@,
            p@.len() == 10,
            out@.map_values(|x: String| x@) + chunks_from(v@, p@, start as int, from as int)
                == file_chunks(diff@),
        decreases v.len() + 1 - from,
    {
        match find_from(&v, &p, from) {
            Some(i) => {
                proof {
                    lemma_next_occ_found(v@, p@, from as int, i as int);
                }
                let ghost before = out@.map_values(|x: String| x@);
                push_nonblank_chunk(&mut out, &v, start, i);
                assert(before + chunks_from(v@, p@, start as int, from as int) =~= out@.map_values(
                    |x: String| x@,
                ) + chunks_from(v@, p@, i as int, i + 1));
                start = i;
                from = i + 1;
            },
            None => {
                proof {
                    lemma_next_occ_none(v@, p@, from as int);
                }
                let ghost before = out@.map_values(|x: String| x@);
                push_nonblank_chunk(&mut out, &v, start, v.len());
                assert(out@.map_values(|x: String| x@) =~= before + chunks_from(v@, p@, start as int, from as int));
                return out;
            },
        }
    }
    proof {
        assert(next_occ(v@, p@, from as int) == -1);
    }
    let ghost before = out@.map_values(|x: String| x@);
    push_nonblank_chunk(&mut out, &v, start, v.len());
    assert(out@.map_values(|x: String| x@) =~= before + chunks_from(v@, p@, start as int, from as int));
    out
}

/// The position of the first white space in `s`, or `s.len()`.
pub open spec fn ws_pos(s: Seq<char>) -> int
    decreases s.len(),
{
    if s.len() == 0 {
        0
    } else if is_ws(s[0]) {
        0
    } else {
        1 + ws_pos(s.drop_first())
    }
}

proof fn lemma_ws_pos_bounds(s: Seq<char>)
    ensures
        0 <= ws_pos(s) <= s.len(),
    decreases s.len(),
{
    if s.len() > 0 && !is_ws(s[0]) {
        lemma_ws_pos_bounds(s.drop_first());
    }
}

/// The first white-space-separated word of `s`, empty if it has none.
pub open spec fn first_word(s: Seq<char>) -> Seq<char> {
    let t = trim_start(s);
    t.subrange(0, ws_pos(t))
}

/// The file a `diff --git a/x b/x` line is about: its first path, without the `a/`.
/// A line of another shape is returned as it is.
pub open spec fn filename_of(line: Seq<char>) -> Seq<char> {
    let pfx = "diff --git "@;
    if starts_with(line, pfx) {
        let w = first_word(line.subrange(pfx.len() as int, line.len() as int));
        if w.len() == 0 {
            line
        } else if starts_with(w, "a/"@) {
            w.subrange(2, w.len() as int)
        } else {
            w
        }
    } else {
        line
    }
}

pub fn extract_filename(line: &str) -> (r: String)
    ensures
        r@ == filename_of(line@),
{
    let v = chars_of(line);
    if !str_starts_with(&v, "diff --git ") {
        return String::from_str(line);
    }
    proof {
        reveal_strlit("diff --git ");
        reveal_strlit("a/");
    }
    let n = v.len();
    let ghost rest = v@.subrange(11, n as int);
    let mut lo: usize = 11;
    while lo < n && is_whitespace(v[lo])
        invariant
            11 <= lo <= n == v@.len(),
            rest == v@.subrange(11, n as int),
            trim_start(rest) == trim_start(v@.subrange(lo as int, n as int)),
        decreases n - lo,
    {
        assert(v@.subrange(lo as int, n as int).drop_first() =~= v@.subrange(lo + 1, n as int));
        lo = lo + 1;
    }
    let ghost t = v@.subrange(lo as int, n as int);
    assert(trim_start(t) == t);
    let mut hi = lo;
    while hi < n && !is_whitespace(v[hi])
        invariant
            lo <= hi <= n == v@.len(),
            t == v@.subrange(lo as int, n as int),
            ws_pos(t) == (hi - lo) + ws_pos(v@.subrange(hi as int, n as int)),
        decreases n - hi,
    {
        assert(v@.subrange(hi as int, n as int).drop_first() =~= v@.subrange(hi + 1, n as int));
        hi = hi + 1;
    }
    proof {
        lemma_ws_pos_bounds(t);
    }
    assert(t.subrange(0, hi - lo) =~= v@.subrange(lo as int, hi as int));
    if hi == lo {
        return String::from_str(line);
    }
    let w = string_of_range(&v, lo, hi);
    let wv = chars_of(w.as_str());
    if str_starts_with(&wv, "a/") {
        assert(wv@.subrange(2, wv@.len() as int) =~= v@.subrange(lo + 2, hi as int));
        string_of_range(&v, lo + 2, hi)
    } else {
        w
    }
}

/// The opening of a truncated diff's summary: `[N FILES CHANGED`.
pub open spec fn summary_opening(file_count: nat) -> Seq<char> {
    "["@ + decimal(file_count) + " FILES CHANGED"@
}

/// The file name of the first `diff --git` line among `ls[k..]`, if there is one.
pub open spec fn header_name_from(ls: Seq<Seq<char>>, k: int) -> Option<Seq<char>>
    decreases ls.len() - k,
{
    if k < 0 || k >= ls.len() {
        None
    } else if starts_with(ls[k], "diff --git"@) {
        Some(filename_of(ls[k]))
    } else {
        header_name_from(ls, k + 1)
    }
}

/// The file name of a chunk: that of its first `diff --git` line, if it has one.
pub open spec fn chunk_name(chunk: Seq<char>) -> Option<Seq<char>> {
    header_name_from(lines_of(chunk), 0)
}

/// The names of the chunks that have one, in order.
pub open spec fn chunk_names(chunks: Seq<Seq<char>>) -> Seq<Seq<char>>
    decreases chunks.len(),
{
    if chunks.len() == 0 {
        Seq::empty()
    } else {
        match chunk_name(chunks.last()) {
            Some(n) => chunk_names(chunks.drop_last()).push(n),
            None => chunk_names(chunks.drop_last()),
        }
    }
}

fn chunk_file_name(chunk: &String) -> (r: Option<String>)
    ensures
        match r {
            Some(n) => chunk_name(chunk@) == Some(n@),
            None => chunk_name(chunk@) is None,
        },
{
    let v = chars_of(chunk.as_str());
    let lines = split_lines(&v);
    let ghost ls = lines@.map_values(|l: Vec<char>| l@);
    let mut k: usize = 0;
    while k < lines.len()
        invariant
            k <= lines@.len(),
            ls == lines@.map_values(|l: Vec<char>| l@),
            ls == lines_of(chunk@),
            header_name_from(ls, 0) == header_name_from(ls, k as int),
        decreases lines.len() - k,
    {
        assert(ls[k as int] == lines@[k as int]@);
        if str_starts_with(&lines[k], "diff --git") {
            let l = string_of_range(&lines[k], 0, lines[k].len());
            assert(lines@[k as int]@.subrange(0, lines@[k as int]@.len() as int) =~= lines@[k as int]@);
            return Some(extract_filename(l.as_str()));
        }
        k = k + 1;
    }
    None
}

/// The body, the remaining budget and the number of cut or skipped files after the first
/// `n` chunks, each given its share of the budget (the first three half as much again).
pub open spec fn fold_chunks(chunks: Seq<Seq<char>>, per_file: int, budget: int, n: int) -> (
    Seq<char>,
    int,
    nat,
)
    decreases n,
{
    if n <= 0 {
        (Seq::empty(), budget, 0)
    } else {
        let (body, remaining, cut) = fold_chunks(chunks, per_file, budget, n - 1);
        let i = n - 1;
        let weighted = if i < 3 {
            per_file + per_file / 2
        } else {
            per_file
        };
        let this_budget = if weighted < remaining {
            weighted
        } else {
            remaining
        };
        let chunk = chunks[i];
        if this_budget < 200 {
            (body, remaining, cut + 1)
        } else if chunk.len() <= this_budget {
            (body + chunk + "\n"@, sat_sub(remaining, (chunk.len() + 1) as int), cut)
        } else {
            let c = cut_point(chunk.subrange(0, this_budget));
            (
                body + chunk.subrange(0, c) + "\n[...truncated...]\n"@,
                sat_sub(remaining, c + 20),
                cut + 1,
            )
        }
    }
}

pub open spec fn sat_sub(a: int, b: int) -> int {
    if a >= b {
        a - b
    } else {
        0
    }
}

/// The summary of a truncated diff: the number of files and their names.
pub open spec fn diff_summary(chunks: Seq<Seq<char>>) -> Seq<char> {
    "["@ + decimal(chunks.len()) + " FILES CHANGED]\n"@ + join_newline(chunk_names(chunks)) + "\n\n"@
}

/// The note that closes a truncated diff.
pub open spec fn truncation_note(total: nat, shown: nat, cut: nat) -> Seq<char> {
    "\n[TRUNCATED — "@ + decimal(total) + " chars total, "@ + decimal(shown) + " files shown"@ + (
    if cut > 0 {
        ", "@ + decimal(cut) + " partially/skipped"@
    } else {
        Seq::empty()
    }) + "]"@
}

/// A diff cut down to what a provider accepts: unchanged if it is short enough; else a
/// summary of the files changed followed by as much of each file's part as its share of
/// the budget allows (the first three files get half as much again), and a closing note.
/// With no file chunk, more than fifty files, or too long a summary, the first lines of
/// the diff are kept instead.
pub open spec fn truncated_diff(diff: Seq<char>) -> Seq<char> {
    let chunks = file_chunks(diff);
    let fc = chunks.len();
    if diff.len() <= MAX_DIFF_CHARS {
        diff
    } else if fc > 50 || fc == 0 {
        simple_truncation(diff, fc)
    } else {
        let summary = diff_summary(chunks);
        let budget = sat_sub(MAX_DIFF_CHARS as int, (summary.len() + 100) as int);
        if budget < 1000 {
            simple_truncation(diff, fc)
        } else {
            let (body, _, cut) = fold_chunks(chunks, budget / fc as int, budget, fc as int);
            summary + body + truncation_note(diff.len(), (fc - cut) as nat, cut)
        }
    }
}

proof fn lemma_fold_cut_bound(chunks: Seq<Seq<char>>, per_file: int, budget: int, n: int)
    requires
        0 <= n,
        0 <= budget,
    ensures
        fold_chunks(chunks, per_file, budget, n).2 <= n,
        0 <= fold_chunks(chunks, per_file, budget, n).1 <= budget,
    decreases n,
{
    if n > 0 {
        lemma_fold_cut_bound(chunks, per_file, budget, n - 1);
    }
}

proof fn lemma_simple_opening(diff: Seq<char>, fc: nat)
    ensures
        starts_with(simple_truncation(diff, fc), summary_opening(fc)),
{
    reveal_strlit(" FILES CHANGED — showing first ");
    reveal_strlit(" FILES CHANGED");
    let l1 = " FILES CHANGED — showing first "@;
    let l2 = " FILES CHANGED"@;
    assert(l1.subrange(0, 14) =~= l2);
    let a = "["@ + decimal(fc);
    let full = simple_truncation(diff, fc);
    let rest = full.subrange((a + l1).len() as int, full.len() as int);
    assert(full =~= a + l1 + rest);
    assert(full.subrange(0, (a + l2).len() as int) =~= a + l2);
}

/// The summary line and file names of a truncated diff.
fn build_summary(chunks: &Vec<String>) -> (r: String)
    ensures
        r@ == diff_summary(chunks@.map_values(|x: String| x@)),
{
    let fc = chunks.len();
    let ghost cs = chunks@.map_values(|x: String| x@);
    let mut summary = String::from_str("[");
    push_decimal(&mut summary, fc);
    push_str(&mut summary, " FILES CHANGED]\n");
    let ghost opening = summary@;
    let mut first = true;
    let mut k: usize = 0;
    assert(cs.subrange(0, 0) =~= Seq::<Seq<char>>::empty());
    assert(summary@ =~= opening + join_newline(chunk_names(cs.subrange(0, 0))));
    while k < fc
        invariant
            fc == chunks@.len() == cs.len(),
            cs == chunks@.map_values(|x: String| x@),
            k <= fc,
            first == (chunk_names(cs.subrange(0, k as int)).len() == 0),
            summary@ == opening + join_newline(chunk_names(cs.subrange(0, k as int))),
        decreases fc - k,
    {
        assert(cs.subrange(0, k + 1).drop_last() =~= cs.subrange(0, k as int));
        assert(cs.subrange(0, k + 1).last() == chunks@[k as int]@);
        let ghost names = chunk_names(cs.subrange(0, k as int));
        match chunk_file_name(&chunks[k]) {
            Some(name) => {
                if !first {
                    push_str(&mut summary, "\n");
                }
                push_str(&mut summary, name.as_str());
                first = false;
                proof {
                    reveal_strlit("\n");
                    assert(names.push(name@).drop_last() =~= names);
                    if names.len() == 0 {
                        assert(join_newline(names) =~= Seq::<char>::empty());
                    }
                }
                assert(summary@ =~= opening + join_newline(names.push(name@)));
            },
            None => {},
        }
        k = k + 1;
    }
    assert(cs.subrange(0, fc as int) =~= cs);
    push_str(&mut summary, "\n\n");
    proof {
        reveal_strlit("[");
        reveal_strlit(" FILES CHANGED]\n");
    }
    assert(summary@ =~= diff_summary(cs));
    summary
}

/// Appends the shares of the chunks to `result`; returns how many were cut or skipped.
fn push_chunk_shares(result: &mut String, chunks: &Vec<String>, budget: usize) -> (cut: usize)
    requires
        chunks@.len() > 0,
        budget <= MAX_DIFF_CHARS,
    ensures
        ({
            let cs = chunks@.map_values(|x: String| x@);
            let f = fold_chunks(cs, budget as int / chunks@.len() as int, budget as int, cs.len() as int);
            &&& final(result)@ == old(result)@ + f.0
            &&& cut as int == f.2
            &&& cut <= chunks@.len()
        }),
{
    let fc = chunks.len();
    let ghost cs = chunks@.map_values(|x: String| x@);
    let ghost head = result@;
    let mut remaining = budget;
    let per_file = budget / fc;
    let mut truncated_files: usize = 0;
    let mut i: usize = 0;
    assert(result@ =~= head + fold_chunks(cs, per_file as int, budget as int, 0).0);
    while i < fc
        invariant
            fc == chunks@.len() == cs.len(),
            cs == chunks@.map_values(|x: String| x@),
            i <= fc,
            budget <= MAX_DIFF_CHARS,
            per_file == budget / fc,
            result@ == head + fold_chunks(cs, per_file as int, budget as int, i as int).0,
            remaining as int == fold_chunks(cs, per_file as int, budget as int, i as int).1,
            truncated_files as int == fold_chunks(cs, per_file as int, budget as int, i as int).2,
        decreases fc - i,
    {
        proof {
            lemma_fold_cut_bound(cs, per_file as int, budget as int, i as int);
        }
        let weighted = if i < 3 {
            per_file + per_file / 2
        } else {
            per_file
        };
        let this_budget = if weighted < remaining {
            weighted
        } else {
            remaining
        };
        assert(cs[i as int] == chunks@[i as int]@);
        if this_budget < 200 {
            truncated_files = truncated_files + 1;
        } else {
            let cv = chars_of(chunks[i].as_str());
            if cv.len() <= this_budget {
                push_str(result, chunks[i].as_str());
                push_str(result, "\n");
                remaining = remaining.saturating_sub(cv.len() + 1);
            } else {
                let cut = cut_point_exec(&cv, this_budget);
                push_range(result, &cv, 0, cut);
                push_str(result, "\n[...truncated...]\n");
                remaining = remaining.saturating_sub(cut + 20);
                truncated_files = truncated_files + 1;
            }
        }
        assert(result@ =~= head + fold_chunks(cs, per_file as int, budget as int, i + 1).0);
        i = i + 1;
    }
    proof {
        lemma_fold_cut_bound(cs, per_file as int, budget as int, fc as int);
    }
    truncated_files
}

/// A diff cut down to what a provider accepts (see `truncated_diff`).
#[verifier::rlimit(40)]
pub fn truncate_diff(diff: &str) -> (r: String)
    ensures
        r@ == truncated_diff(diff@),
        diff@.len() <= MAX_DIFF_CHARS ==> r@ == diff@,
        diff@.len() > MAX_DIFF_CHARS ==> starts_with(r@, summary_opening(file_chunks(diff@).len())),
{
    let v = chars_of(diff);
    if v.len() <= MAX_DIFF_CHARS {
        return String::from_str(diff);
    }
    let chunks = split_diff_by_file(diff);
    let fc = chunks.len();
    let ghost cs = chunks@.map_values(|x: String| x@);
    assert(cs.len() == fc);
    if fc > 50 || fc == 0 {
        let r = truncate_simple(diff, fc);
        proof {
            lemma_simple_opening(diff@, fc as nat);
        }
        return r;
    }
    let summary = build_summary(&chunks);
    let summary_len = chars_of(summary.as_str()).len();
    let budget = MAX_DIFF_CHARS.saturating_sub(summary_len.saturating_add(100));
    if budget < 1000 {
        let r = truncate_simple(diff, fc);
        proof {
            lemma_simple_opening(diff@, fc as nat);
        }
        return r;
    }
    let mut result = summary;
    let truncated_files = push_chunk_shares(&mut result, &chunks, budget);
    let ghost body_end = result@;
    push_str(&mut result, "\n[TRUNCATED — ");
    push_decimal(&mut result, v.len());
    push_str(&mut result, " chars total, ");
    push_decimal(&mut result, fc - truncated_files);
    push_str(&mut result, " files shown");
    if truncated_files > 0 {
        push_str(&mut result, ", ");
        push_decimal(&mut result, truncated_files);
        push_str(&mut result, " partially/skipped");
    }
    push_str(&mut result, "]");
    assert(result@ =~= body_end + truncation_note(v@.len(), (fc - truncated_files) as nat, truncated_files as nat));
    proof {
        let f = fold_chunks(cs, budget as int / fc as int, budget as int, fc as int);
        assert(truncated_diff(diff@) == diff_summary(cs) + f.0 + truncation_note(v@.len(), (fc - f.2) as nat, f.2));
        lemma_summary_opening(cs, f.0 + truncation_note(v@.len(), (fc - f.2) as nat, f.2));
        assert(result@ =~= diff_summary(cs) + (f.0 + truncation_note(v@.len(), (fc - f.2) as nat, f.2)));
    }
    result
}

proof fn lemma_summary_opening(cs: Seq<Seq<char>>, rest: Seq<char>)
    ensures
        starts_with(diff_summary(cs) + rest, summary_opening(cs.len())),
{
    reveal_strlit(" FILES CHANGED]\n");
    reveal_strlit(" FILES CHANGED");
    let so = summary_opening(cs.len());
    let full = diff_summary(cs) + rest;
    assert(" FILES CHANGED]\n"@.subrange(0, 14) =~= " FILES CHANGED"@);
    assert(full.subrange(0, so.len() as int) =~= so);
}

} // verus!
