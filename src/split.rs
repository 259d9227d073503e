//! Hunks of a commit's diff, and the patch text for a chosen subset of them.
use vstd::prelude::*;

use crate::text::{
    chars_of, decimal, push_decimal, push_str, trim, trim_string,
};

verus! {

/// One line of a hunk, without its one-character origin prefix.
#[derive(Debug, Clone)]
pub enum DiffLine {
    Context(String),
    Added(String),
    Removed(String),
}

/// A contiguous block of one file's diff, with its unified-diff header kept verbatim.
#[derive(Debug, Clone)]
pub struct Hunk {
    pub file_path: String,
    pub header: String,
    pub lines: Vec<DiffLine>,
    pub old_start: u32,
    pub new_start: u32,
}

/// A diff line as the repository reports it: its origin character and its content, which
/// is `None` where the bytes are not valid text.
pub struct RawDiffLine {
    pub origin: char,
    pub content: Option<String>,
}

/// Why a commit's hunks could not be decomposed.
#[derive(Debug, Clone, PartialEq, Eq)]
pub enum DiffParseError {
    /// A line of the hunk with this header is not valid text.
    UndecodableLine { header: String },
    /// The header of a hunk is not valid text.
    UndecodableHeader,
}

pub open spec fn line_prefix(l: DiffLine) -> char {
    match l {
        DiffLine::Context(_) => ' ',
        DiffLine::Added(_) => '+',
        DiffLine::Removed(_) => '-',
    }
}

pub open spec fn line_content(l: DiffLine) -> Seq<char> {
    match l {
        DiffLine::Context(s) => s@,
        DiffLine::Added(s) => s@,
        DiffLine::Removed(s) => s@,
    }
}

/// A line as it stands in a patch: prefix, content, and a newline unless the content
/// already ends with one.
pub open spec fn line_text(l: DiffLine) -> Seq<char> {
    let body = seq![line_prefix(l)] + line_content(l);
    if body.last() == '\n' {
        body
    } else {
        body.push('\n')
    }
}

pub open spec fn lines_text(ls: Seq<DiffLine>) -> Seq<char>
    decreases ls.len(),
{
    if ls.len() == 0 {
        Seq::empty()
    } else {
        lines_text(ls.drop_last()) + line_text(ls.last())
    }
}

/// A hunk as it stands in a patch: its header line, then its lines.
pub open spec fn hunk_text(h: Hunk) -> Seq<char> {
    h.header@.push('\n') + lines_text(h.lines@)
}

/// The pair of file-header lines that opens a file's part of a patch.
pub open spec fn file_header(path: Seq<char>) -> Seq<char> {
    "--- a/"@ + path + "\n+++ b/"@ + path + "\n"@
}

pub open spec fn path_at(hs: Seq<Hunk>, sel: Seq<usize>, k: int) -> Seq<char> {
    hs[sel[k] as int].file_path@
}

/// The `k`-th selected hunk belongs to another file than the one before it.
pub open spec fn starts_file(hs: Seq<Hunk>, sel: Seq<usize>, k: int) -> bool {
    k == 0 || path_at(hs, sel, k - 1) != path_at(hs, sel, k)
}

/// The patch for the first `n` selected hunks.
pub open spec fn patch_upto(hs: Seq<Hunk>, sel: Seq<usize>, n: int) -> Seq<char>
    decreases n,
{
    if n <= 0 {
        Seq::empty()
    } else {
        patch_upto(hs, sel, n - 1) + (if starts_file(hs, sel, n - 1) {
            file_header(path_at(hs, sel, n - 1))
        } else {
            Seq::empty()
        }) + hunk_text(hs[sel[n - 1] as int])
    }
}

/// The patch for the selected hunks, in selection order: a file's header pair opens each run
/// of hunks of that file.
pub open spec fn patch_text(hs: Seq<Hunk>, sel: Seq<usize>) -> Seq<char> {
    patch_upto(hs, sel, sel.len() as int)
}

pub open spec fn selection_in_range(hs: Seq<Hunk>, sel: Seq<usize>) -> bool {
    forall|k: int| 0 <= k < sel.len() ==> sel[k] < hs.len()
}

fn push_line(out: &mut String, l: &DiffLine)
    ensures
        final(out)@ == old(out)@ + line_text(*l),
{
    let s = match l {
        DiffLine::Context(s) => {
            out.push(' ');
            s
        },
        DiffLine::Added(s) => {
            out.push('+');
            s
        },
        DiffLine::Removed(s) => {
            out.push('-');
            s
        },
    };
    let ghost mid = out@;
    push_str(out, s.as_str());
    let v = chars_of(s.as_str());
    let ends_nl = v.len() > 0 && v[v.len() - 1] == '\n';
    let ghost body = seq![line_prefix(*l)] + line_content(*l);
    assert(body.last() == '\n' <==> ends_nl);
    if !ends_nl {
        out.push('\n');
    }
    assert(out@ =~= old(out)@ + line_text(*l));
}

fn push_hunk(out: &mut String, h: &Hunk)
    ensures
        final(out)@ == old(out)@ + hunk_text(*h),
{
    push_str(out, h.header.as_str());
    out.push('\n');
    let ghost start = out@;
    let mut i: usize = 0;
    while i < h.lines.len()
        invariant
            i <= h.lines@.len(),
            out@ == start + lines_text(h.lines@.subrange(0, i as int)),
        decreases h.lines.len() - i,
    {
        push_line(out, &h.lines[i]);
        assert(h.lines@.subrange(0, i + 1).drop_last() =~= h.lines@.subrange(0, i as int));
        i = i + 1;
    }
    assert(h.lines@.subrange(0, h.lines@.len() as int) =~= h.lines@);
    assert(out@ =~= old(out)@ + hunk_text(*h));
}

fn push_file_header(out: &mut String, path: &String)
    ensures
        final(out)@ == old(out)@ + file_header(path@),
{
    push_str(out, "--- a/");
    push_str(out, path.as_str());
    push_str(out, "\n+++ b/");
    push_str(out, path.as_str());
    push_str(out, "\n");
    assert(out@ =~= old(out)@ + file_header(path@));
}

/// The patch text for the hunks at the positions `selected`, in that order.
pub fn generate_patch_for_hunks(hunks: &[Hunk], selected: &[usize]) -> (r: String)
    requires
        selection_in_range(hunks@, selected@),
    ensures
        r@ == patch_text(hunks@, selected@),
{
    let mut patch = String::new();
    let mut k: usize = 0;
    while k < selected.len()
        invariant
            k <= selected@.len(),
            selection_in_range(hunks@, selected@),
            patch@ == patch_upto(hunks@, selected@, k as int),
        decreases selected.len() - k,
    {
        let hunk = &hunks[selected[k]];
        let new_file = k == 0 || hunks[selected[k - 1]].file_path != hunk.file_path;
        if new_file {
            push_file_header(&mut patch, &hunk.file_path);
        }
        push_hunk(&mut patch, hunk);
        assert(patch@ =~= patch_upto(hunks@, selected@, k + 1));
        k = k + 1;
    }
    patch
}

pub open spec fn count_added(ls: Seq<DiffLine>) -> nat
    decreases ls.len(),
{
    if ls.len() == 0 {
        0
    } else {
        count_added(ls.drop_last()) + if ls.last() is Added {
            1nat
        } else {
            0nat
        }
    }
}

pub open spec fn count_removed(ls: Seq<DiffLine>) -> nat
    decreases ls.len(),
{
    if ls.len() == 0 {
        0
    } else {
        count_removed(ls.drop_last()) + if ls.last() is Removed {
            1nat
        } else {
            0nat
        }
    }
}

proof fn lemma_counts_bounded(ls: Seq<DiffLine>)
    ensures
        count_added(ls) <= ls.len(),
        count_removed(ls) <= ls.len(),
    decreases ls.len(),
{
    if ls.len() > 0 {
        lemma_counts_bounded(ls.drop_last());
    }
}

/// The one-line summary of a hunk: `path +added -removed`.
pub open spec fn hunk_summary(h: Hunk) -> Seq<char> {
    h.file_path@ + " +"@ + decimal(count_added(h.lines@)) + " -"@ + decimal(
        count_removed(h.lines@),
    )
}

impl Hunk {
    pub fn summary(&self) -> (r: String)
        ensures
            r@ == hunk_summary(*self),
    {
        let mut added: usize = 0;
        let mut removed: usize = 0;
        let mut i: usize = 0;
        while i < self.lines.len()
            invariant
                i <= self.lines@.len(),
                added == count_added(self.lines@.subrange(0, i as int)),
                removed == count_removed(self.lines@.subrange(0, i as int)),
            decreases self.lines.len() - i,
        {
            proof {
                lemma_counts_bounded(self.lines@.subrange(0, i as int));
            }
            assert(self.lines@.subrange(0, i + 1).drop_last() =~= self.lines@.subrange(
                0,
                i as int,
            ));
            match &self.lines[i] {
                DiffLine::Added(_) => {
                    added = added + 1;
                },
                DiffLine::Removed(_) => {
                    removed = removed + 1;
                },
                DiffLine::Context(_) => {},
            }
            i = i + 1;
        }
        assert(self.lines@.subrange(0, self.lines@.len() as int) =~= self.lines@);
        let mut r = self.file_path.clone();
        push_str(&mut r, " +");
        push_decimal(&mut r, added);
        push_str(&mut r, " -");
        push_decimal(&mut r, removed);
        r
    }
}

/// The hunk list is grouped by file: hunks of one file stand next to each other, as the
/// decomposer produces them.
pub open spec fn file_contiguous(hs: Seq<Hunk>) -> bool {
    forall|i: int, j: int, l: int|
        0 <= i < j < l < hs.len() && #[trigger] hs[i].file_path@ == #[trigger] hs[l].file_path@
            ==> #[trigger] hs[j].file_path@ == hs[i].file_path@
}

pub open spec fn strictly_increasing(sel: Seq<usize>) -> bool {
    forall|a: int, b: int| 0 <= a < b < sel.len() ==> sel[a] < sel[b]
}

/// The `k`-th selected hunk is the first selected hunk of its file.
pub open spec fn first_of_file(hs: Seq<Hunk>, sel: Seq<usize>, k: int) -> bool {
    forall|j: int| 0 <= j < k ==> path_at(hs, sel, j) != path_at(hs, sel, k)
}

/// The first `n` selected hunks in order, each file's header pair written once, before the
/// first selected hunk of that file.
pub open spec fn grouped_upto(hs: Seq<Hunk>, sel: Seq<usize>, n: int) -> Seq<char>
    decreases n,
{
    if n <= 0 {
        Seq::empty()
    } else {
        grouped_upto(hs, sel, n - 1) + (if first_of_file(hs, sel, n - 1) {
            file_header(path_at(hs, sel, n - 1))
        } else {
            Seq::empty()
        }) + hunk_text(hs[sel[n - 1] as int])
    }
}

/// For a hunk list grouped by file and a selection in ascending order, the patch holds
/// exactly the selected hunks in ascending order, and each file's header pair exactly once:
/// before the first selected hunk of that file, also where the selection skips hunks.
pub proof fn lemma_patch_one_header_per_file(hs: Seq<Hunk>, sel: Seq<usize>)
    requires
        file_contiguous(hs),
        strictly_increasing(sel),
        selection_in_range(hs, sel),
    ensures
        forall|k: int| 0 <= k < sel.len() ==> (starts_file(hs, sel, k) <==> first_of_file(hs, sel, k)),
        patch_text(hs, sel) == grouped_upto(hs, sel, sel.len() as int),
{
    assert forall|k: int| 0 <= k < sel.len() implies (starts_file(hs, sel, k) <==> first_of_file(
        hs,
        sel,
        k,
    )) by {
        if k > 0 {
            if starts_file(hs, sel, k) {
                assert forall|j: int| 0 <= j < k implies path_at(hs, sel, j) != path_at(
                    hs,
                    sel,
                    k,
                ) by {
                    if j < k - 1 && path_at(hs, sel, j) == path_at(hs, sel, k) {
                        let a = sel[j] as int;
                        let b = sel[k - 1] as int;
                        let c = sel[k] as int;
                        assert(a < b < c);
                        assert(hs[a].file_path@ == hs[c].file_path@);
                        assert(hs[b].file_path@ == hs[a].file_path@);
                    }
                }
            } else {
                assert(path_at(hs, sel, k - 1) == path_at(hs, sel, k));
            }
        }
    }
    lemma_grouped_matches(hs, sel, sel.len() as int);
}

proof fn lemma_grouped_matches(hs: Seq<Hunk>, sel: Seq<usize>, n: int)
    requires
        0 <= n <= sel.len(),
        forall|k: int| 0 <= k < sel.len() ==> (starts_file(hs, sel, k) <==> first_of_file(hs, sel, k)),
    ensures
        patch_upto(hs, sel, n) == grouped_upto(hs, sel, n),
    decreases n,
{
    if n > 0 {
        lemma_grouped_matches(hs, sel, n - 1);
        assert(starts_file(hs, sel, n - 1) <==> first_of_file(hs, sel, n - 1));
    }
}

/// The diff line for a raw line of origin `origin`: context, addition or removal; other
/// origins (end-of-file markers and the like) give none.
pub open spec fn kept_line(r: RawDiffLine) -> Option<DiffLine> {
    match r.content {
        Some(c) => if r.origin == '+' {
            Some(DiffLine::Added(c))
        } else if r.origin == '-' {
            Some(DiffLine::Removed(c))
        } else if r.origin == ' ' {
            Some(DiffLine::Context(c))
        } else {
            None
        },
        None => None,
    }
}

pub open spec fn is_content_origin(c: char) -> bool {
    c == '+' || c == '-' || c == ' '
}

/// The diff lines of a hunk, from its raw lines.
pub open spec fn kept_lines(raw: Seq<RawDiffLine>) -> Seq<DiffLine>
    decreases raw.len(),
{
    if raw.len() == 0 {
        Seq::empty()
    } else {
        let rest = kept_lines(raw.drop_last());
        match kept_line(raw.last()) {
            Some(l) => rest.push(l),
            None => rest,
        }
    }
}

/// Some line of the hunk is a context, added or removed line whose bytes are not text.
pub open spec fn has_undecodable(raw: Seq<RawDiffLine>) -> bool {
    exists|k: int| 0 <= k < raw.len() && is_content_origin(#[trigger] raw[k].origin) && raw[k].content is None
}

/// Builds one hunk of `file_path` from the repository's header text and raw lines: the
/// header is trimmed, the context, added and removed lines are kept in order, and a line of
/// those kinds that is not text makes the hunk fail.
pub fn build_hunk(
    file_path: String,
    header: Option<&str>,
    raw: &Vec<RawDiffLine>,
    old_start: u32,
    new_start: u32,
) -> (r: Result<Hunk, DiffParseError>)
    ensures
        (header is None || has_undecodable(raw@)) <==> r is Err,
        header is None ==> (r matches Err(DiffParseError::UndecodableHeader)),
        r matches Ok(h) ==> h.file_path == file_path && h.header@ == trim(header->0@)
            && h.lines@ == kept_lines(raw@) && h.old_start == old_start && h.new_start
            == new_start,
{
    let text = match header {
        Some(h) => h,
        None => {
            return Err(DiffParseError::UndecodableHeader);
        },
    };
    let trimmed = trim_string(text);
    let mut lines: Vec<DiffLine> = Vec::new();
    let mut i: usize = 0;
    while i < raw.len()
        invariant
            i <= raw@.len(),
            lines@ == kept_lines(raw@.subrange(0, i as int)),
            !has_undecodable(raw@.subrange(0, i as int)),
            header == Some(text),
            trimmed@ == trim(text@),
        decreases raw.len() - i,
    {
        let ghost pre = raw@.subrange(0, i as int);
        assert(raw@.subrange(0, i + 1).drop_last() =~= pre);
        let item = &raw[i];
        let is_content = item.origin == '+' || item.origin == '-' || item.origin == ' ';
        match &item.content {
            Some(c) => {
                if item.origin == '+' {
                    lines.push(DiffLine::Added(c.clone()));
                } else if item.origin == '-' {
                    lines.push(DiffLine::Removed(c.clone()));
                } else if item.origin == ' ' {
                    lines.push(DiffLine::Context(c.clone()));
                }
            },
            None => {
                if is_content {
                    assert(has_undecodable(raw@)) by {
                        assert(is_content_origin(raw@[i as int].origin));
                    }
                    return Err(DiffParseError::UndecodableLine { header: trimmed });
                }
            },
        }
        assert(!has_undecodable(raw@.subrange(0, i + 1))) by {
            if has_undecodable(raw@.subrange(0, i + 1)) {
                let k = choose|k: int|
                    0 <= k < i + 1 && is_content_origin(#[trigger] raw@.subrange(0, i + 1)[k].origin)
                        && raw@.subrange(0, i + 1)[k].content is None;
                if k < i {
                    assert(pre[k] == raw@.subrange(0, i + 1)[k]);
                }
            }
        }
        i = i + 1;
    }
    assert(raw@.subrange(0, raw@.len() as int) =~= raw@);
    Ok(Hunk { file_path, header: trimmed, lines, old_start, new_start })
}

} // verus!
