//! Choosing commits by number: `3`, `1-5`, `1,3,5`, as typed at the reword prompt.
use vstd::prelude::*;

use crate::text::{char_pos, chars_of, lemma_char_pos_bounds, trim, trim_bounds};

verus! {

pub open spec fn is_digit(c: char) -> bool {
    '0' <= c && c <= '9'
}

/// The value of a run of decimal digits.
pub open spec fn digits_value(s: Seq<char>) -> nat
    decreases s.len(),
{
    if s.len() == 0 {
        0
    } else {
        digits_value(s.drop_last()) * 10 + (s.last() as nat - '0' as nat) as nat
    }
}

/// The text after an optional leading `+`.
pub open spec fn unsigned_digits(s: Seq<char>) -> Seq<char> {
    if s.len() > 0 && s[0] == '+' {
        s.drop_first()
    } else {
        s
    }
}

pub open spec fn all_digits(d: Seq<char>) -> bool {
    forall|i: int| 0 <= i < d.len() ==> is_digit(#[trigger] d[i])
}

/// What `str::parse::<usize>` gives: an optional `+`, then one or more digits whose value
/// fits in `usize`.
pub open spec fn parsed_usize(s: Seq<char>) -> Option<nat> {
    let d = unsigned_digits(s);
    if d.len() > 0 && all_digits(d) && digits_value(d) <= usize::MAX {
        Some(digits_value(d))
    } else {
        None
    }
}

proof fn lemma_digits_grow(s: Seq<char>, k: int)
    requires
        0 <= k <= s.len(),
        forall|i: int| 0 <= i < s.len() ==> is_digit(#[trigger] s[i]),
    ensures
        digits_value(s.subrange(0, k)) <= digits_value(s),
    decreases s.len() - k,
{
    if k < s.len() {
        lemma_digits_grow(s, k + 1);
        assert(s.subrange(0, k + 1).drop_last() =~= s.subrange(0, k));
        assert(is_digit(s[k]));
    } else {
        assert(s.subrange(0, k) =~= s);
    }
}

/// Parses `v[lo..hi]` as `str::parse::<usize>` does.
pub fn parse_usize(v: &Vec<char>, lo: usize, hi: usize) -> (r: Option<usize>)
    requires
        lo <= hi <= v@.len(),
    ensures
        match r {
            Some(n) => parsed_usize(v@.subrange(lo as int, hi as int)) == Some(n as nat),
            None => parsed_usize(v@.subrange(lo as int, hi as int)) is None,
        },
{
    let ghost s = v@.subrange(lo as int, hi as int);
    let mut start = lo;
    if lo < hi && v[lo] == '+' {
        start = lo + 1;
        assert(s.drop_first() =~= v@.subrange(start as int, hi as int));
    }
    let ghost d = v@.subrange(start as int, hi as int);
    assert(d == unsigned_digits(s));
    if start == hi {
        return None;
    }
    let mut value: usize = 0;
    let mut i = start;
    while i < hi
        invariant
            lo <= start <= i <= hi <= v@.len(),
            d == v@.subrange(start as int, hi as int),
            s == v@.subrange(lo as int, hi as int),
            d == unsigned_digits(s),
            d.len() > 0,
            value as nat == digits_value(v@.subrange(start as int, i as int)),
            forall|j: int| start <= j < i ==> is_digit(#[trigger] v@[j]),
        decreases hi - i,
    {
        let c = v[i];
        if !('0' <= c && c <= '9') {
            assert(d[i - start] == v@[i as int]);
            assert(!is_digit(d[i - start]));
            assert(!all_digits(d));
            assert(parsed_usize(s) is None);
            return None;
        }
        let digit = (c as u32 - '0' as u32) as usize;
        assert(v@.subrange(start as int, i + 1).drop_last() =~= v@.subrange(start as int, i as int));
        if value > (usize::MAX - digit) / 10 {
            proof {
                assert(value * 10 + digit > usize::MAX) by (nonlinear_arith)
                    requires
                        value > (usize::MAX - digit) / 10,
                        digit <= 9,
                ;
                assert(digits_value(v@.subrange(start as int, i + 1)) == value * 10 + digit);
                if all_digits(d) {
                    lemma_digits_grow(d, (i + 1 - start) as int);
                    assert(d.subrange(0, (i + 1 - start) as int) =~= v@.subrange(start as int, i + 1));
                    assert(digits_value(d) > usize::MAX);
                }
                assert(parsed_usize(s) is None);
            }
            return None;
        }
        proof {
            assert(value * 10 + digit <= usize::MAX) by (nonlinear_arith)
                requires
                    value <= (usize::MAX - digit) / 10,
                    digit <= 9,
            ;
        }
        value = value * 10 + digit;
        i = i + 1;
    }
    assert forall|j: int| 0 <= j < d.len() implies is_digit(#[trigger] d[j]) by {
        assert(d[j] == v@[start + j]);
    }
    Some(value)
}

/// The pieces of `s` between the `c`s; there is one more piece than there are `c`s.
pub open spec fn split_on(s: Seq<char>, c: char) -> Seq<Seq<char>>
    decreases s.len(),
{
    let p = char_pos(s, c);
    if p < 0 || p >= s.len() {
        seq![s]
    } else {
        seq![s.subrange(0, p)] + split_on(s.subrange(p + 1, s.len() as int), c)
    }
}

/// The positions `lo - 1` to `hi - 1`.
pub open spec fn span(lo: nat, hi: nat) -> Seq<usize> {
    Seq::new((hi - lo + 1) as nat, |k: int| (lo - 1 + k) as usize)
}

/// The positions one part of the input names: a number `n` names `n - 1`, a range `a-b`
/// (either way round) the positions from the smaller to the larger, minus one; numbers run
/// from 1 to `max`.
pub open spec fn part_positions(part: Seq<char>, max: nat) -> Option<Seq<usize>> {
    let p = trim(part);
    if exists|i: int| 0 <= i < p.len() && p[i] == '-' {
        let bounds = split_on(p, '-');
        if bounds.len() != 2 {
            None
        } else {
            match (parsed_usize(trim(bounds[0])), parsed_usize(trim(bounds[1]))) {
                (Some(a), Some(b)) => if a == 0 || b == 0 || a > max || b > max {
                    None
                } else if a <= b {
                    Some(span(a, b))
                } else {
                    Some(span(b, a))
                },
                _ => None,
            }
        }
    } else {
        match parsed_usize(p) {
            Some(n) => if n == 0 || n > max {
                None
            } else {
                Some(seq![(n - 1) as usize])
            },
            None => None,
        }
    }
}

/// The positions all the parts name, in order, or `None` if one part is not valid.
pub open spec fn parts_positions(parts: Seq<Seq<char>>, max: nat) -> Option<Seq<usize>>
    decreases parts.len(),
{
    if parts.len() == 0 {
        Some(Seq::empty())
    } else {
        match (parts_positions(parts.drop_last(), max), part_positions(parts.last(), max)) {
            (Some(a), Some(b)) => Some(a + b),
            _ => None,
        }
    }
}

/// Every position a valid selection names is below `max`.
pub proof fn lemma_parts_in_range(parts: Seq<Seq<char>>, max: nat)
    ensures
        parts_positions(parts, max) is Some ==> forall|j: int|
            0 <= j < parts_positions(parts, max)->0.len() ==> #[trigger] parts_positions(parts, max)->0[j] < max,
    decreases parts.len(),
{
    if parts.len() > 0 {
        lemma_parts_in_range(parts.drop_last(), max);
        match (parts_positions(parts.drop_last(), max), part_positions(parts.last(), max)) {
            (Some(a), Some(b)) => {
                assert forall|j: int| 0 <= j < (a + b).len() implies (a + b)[j] < max by {
                    if j >= a.len() {
                        assert((a + b)[j] == b[j - a.len()]);
                    }
                }
            },
            _ => {},
        }
    }
}

/// The positions a selection input names, its parts separated by commas.
pub open spec fn selection_of(input: Seq<char>, max: nat) -> Option<Seq<usize>> {
    parts_positions(split_on(input, ','), max)
}

proof fn lemma_split_nonempty(s: Seq<char>, c: char)
    ensures
        split_on(s, c).len() >= 1,
    decreases s.len(),
{
    lemma_char_pos_bounds(s, c);
    let p = char_pos(s, c);
    if 0 <= p < s.len() {
        lemma_split_nonempty(s.subrange(p + 1, s.len() as int), c);
    }
}

/// The bounds of the pieces of `v[lo..hi]` between the `c`s.
fn split_ranges(v: &Vec<char>, lo: usize, hi: usize, c: char) -> (r: Vec<(usize, usize)>)
    requires
        lo <= hi <= v@.len(),
    ensures
        r@.len() == split_on(v@.subrange(lo as int, hi as int), c).len(),
        forall|k: int| 0 <= k < r@.len() ==> {
            let (a, b) = #[trigger] r@[k];
            &&& lo <= a <= b <= hi
            &&& v@.subrange(a as int, b as int) == split_on(v@.subrange(lo as int, hi as int), c)[k]
        },
{
    let mut r: Vec<(usize, usize)> = Vec::new();
    let mut pos = lo;
    let ghost whole = v@.subrange(lo as int, hi as int);
    let ghost mut done: Seq<Seq<char>> = Seq::empty();
    loop
        invariant_except_break
            lo <= pos <= hi <= v@.len(),
            whole == v@.subrange(lo as int, hi as int),
            done + split_on(v@.subrange(pos as int, hi as int), c) == split_on(whole, c),
            r@.len() == done.len(),
            forall|k: int| 0 <= k < r@.len() ==> {
                let (a, b) = #[trigger] r@[k];
                &&& lo <= a <= b <= hi
                &&& v@.subrange(a as int, b as int) == done[k]
            },
        ensures
            r@.len() == split_on(whole, c).len(),
            forall|k: int| 0 <= k < r@.len() ==> {
                let (a, b) = #[trigger] r@[k];
                &&& lo <= a <= b <= hi
                &&& v@.subrange(a as int, b as int) == split_on(whole, c)[k]
            },
        decreases hi - pos,
    {
        let ghost rest = v@.subrange(pos as int, hi as int);
        let p = find_char(v, pos, hi, c);
        proof {
            lemma_char_pos_bounds(rest, c);
        }
        if p < hi {
            assert(rest.subrange(0, p - pos) =~= v@.subrange(pos as int, p as int));
            assert(rest.subrange(p - pos + 1, rest.len() as int) =~= v@.subrange(p + 1, hi as int));
            proof {
                done = done.push(v@.subrange(pos as int, p as int));
            }
            r.push((pos, p));
            assert(done + split_on(v@.subrange(p + 1, hi as int), c) =~= split_on(whole, c)) by {
                assert(split_on(rest, c) =~= seq![v@.subrange(pos as int, p as int)] + split_on(v@.subrange(p + 1, hi as int), c));
            }
            pos = p + 1;
        } else {
            proof {
                done = done.push(rest);
            }
            r.push((pos, hi));
            assert(split_on(rest, c) =~= seq![rest]);
            assert(done =~= split_on(whole, c));
            break;
        }
    }
    r
}

/// The position of the first `c` in `v[from..to]`, or `to`.
fn find_char(v: &Vec<char>, from: usize, to: usize, c: char) -> (r: usize)
    requires
        from <= to <= v@.len(),
    ensures
        r == from + char_pos(v@.subrange(from as int, to as int), c),
        from <= r <= to,
{
    let mut j = from;
    while j < to && v[j] != c
        invariant
            from <= j <= to <= v@.len(),
            char_pos(v@.subrange(from as int, to as int), c) == (j - from) + char_pos(
                v@.subrange(j as int, to as int),
                c,
            ),
        decreases to - j,
    {
        assert(v@.subrange(j as int, to as int).drop_first() =~= v@.subrange(j + 1, to as int));
        j = j + 1;
    }
    proof {
        lemma_char_pos_bounds(v@.subrange(from as int, to as int), c);
    }
    j
}

proof fn lemma_char_pos_found(s: Seq<char>, c: char)
    ensures
        (char_pos(s, c) < s.len()) == (exists|i: int| 0 <= i < s.len() && s[i] == c),
    decreases s.len(),
{
    lemma_char_pos_bounds(s, c);
    if s.len() > 0 && s[0] != c {
        lemma_char_pos_found(s.drop_first(), c);
        if exists|i: int| 0 <= i < s.len() && s[i] == c {
            let i = choose|i: int| 0 <= i < s.len() && s[i] == c;
            assert(s.drop_first()[i - 1] == c);
        }
        if exists|i: int| 0 <= i < s.len() - 1 && s.drop_first()[i] == c {
            let i = choose|i: int| 0 <= i < s.len() - 1 && s.drop_first()[i] == c;
            assert(s[i + 1] == c);
        }
    }
}

/// Parses the trimmed number in `v[a..b]`.
fn parse_trimmed(v: &Vec<char>, a: usize, b: usize) -> (r: Option<usize>)
    requires
        a <= b <= v@.len(),
    ensures
        match r {
            Some(n) => parsed_usize(trim(v@.subrange(a as int, b as int))) == Some(n as nat),
            None => parsed_usize(trim(v@.subrange(a as int, b as int))) is None,
        },
{
    let (lo, hi) = trim_bounds(v, a, b);
    parse_usize(v, lo, hi)
}

/// Appends the positions `lo - 1` to `hi - 1`.
fn push_span(out: &mut Vec<usize>, lo: usize, hi: usize)
    requires
        1 <= lo <= hi,
    ensures
        final(out)@ == old(out)@ + span(lo as nat, hi as nat),
{
    let len = hi - lo;
    let mut k: usize = 0;
    let ghost start = out@;
    while k <= len
        invariant
            len == hi - lo,
            1 <= lo <= hi,
            k <= len + 1,
            out@ == start + Seq::new(k as nat, |j: int| (lo - 1 + j) as usize),
        decreases len + 1 - k,
    {
        out.push(lo - 1 + k);
        assert(out@ =~= start + Seq::new((k + 1) as nat, |j: int| (lo - 1 + j) as usize));
        k = k + 1;
    }
    assert(span(lo as nat, hi as nat) =~= Seq::new((len + 1) as nat, |j: int| (lo - 1 + j) as usize));
}

/// The positions one part `v[a..b]` names, appended to `out`; `false` where the part is
/// not valid.
fn push_part(out: &mut Vec<usize>, v: &Vec<char>, a: usize, b: usize, max: usize) -> (ok: bool)
    requires
        a <= b <= v@.len(),
    ensures
        match part_positions(v@.subrange(a as int, b as int), max as nat) {
            Some(ps) => ok && final(out)@ == old(out)@ + ps,
            None => !ok,
        },
{
    let ghost part = v@.subrange(a as int, b as int);
    let (lo, hi) = trim_bounds(v, a, b);
    let ghost p = v@.subrange(lo as int, hi as int);
    assert(p == trim(part));
    let dash = find_char(v, lo, hi, '-');
    proof {
        lemma_char_pos_found(p, '-');
    }
    if dash < hi {
        let bounds = split_ranges(v, lo, hi, '-');
        if bounds.len() != 2 {
            return false;
        }
        let (a0, b0) = bounds[0];
        let (a1, b1) = bounds[1];
        let first = parse_trimmed(v, a0, b0);
        let second = parse_trimmed(v, a1, b1);
        match (first, second) {
            (Some(x), Some(y)) => {
                if x == 0 || y == 0 || x > max || y > max {
                    return false;
                }
                if x <= y {
                    push_span(out, x, y);
                } else {
                    push_span(out, y, x);
                }
                true
            },
            _ => false,
        }
    } else {
        match parse_usize(v, lo, hi) {
            Some(n) => {
                if n == 0 || n > max {
                    return false;
                }
                out.push(n - 1);
                assert(out@ =~= old(out)@ + seq![(n - 1) as usize]);
                true
            },
            None => false,
        }
    }
}

proof fn lemma_positions_none(ps: Seq<Seq<char>>, k: int, max: nat)
    requires
        0 <= k <= ps.len(),
        parts_positions(ps.subrange(0, k), max) is None,
    ensures
        parts_positions(ps, max) is None,
    decreases ps.len() - k,
{
    if k < ps.len() {
        assert(ps.subrange(0, k + 1).drop_last() =~= ps.subrange(0, k));
        lemma_positions_none(ps, k + 1, max);
    } else {
        assert(ps.subrange(0, k) =~= ps);
    }
}

/// The positions a selection input names, in the order typed: `3` names position 2,
/// `2-4` (or `4-2`) positions 1 to 3, and parts are separated by commas. Numbers run from
/// 1 to `max`; any part that is not a valid number or range makes the whole input invalid.
pub fn parse_selection(input: &str, max: usize) -> (r: Option<Vec<usize>>)
    ensures
        match r {
            Some(ps) => selection_of(input@, max as nat) == Some(ps@),
            None => selection_of(input@, max as nat) is None,
        },
{
    let v = chars_of(input);
    let parts = split_ranges(&v, 0, v.len(), ',');
    let ghost pieces = split_on(v@.subrange(0, v@.len() as int), ',');
    assert(v@.subrange(0, v@.len() as int) =~= v@);
    let mut out: Vec<usize> = Vec::new();
    let mut k: usize = 0;
    assert(pieces.subrange(0, 0) =~= Seq::<Seq<char>>::empty());
    while k < parts.len()
        invariant
            k <= parts@.len() == pieces.len(),
            pieces == split_on(input@, ','),
            forall|j: int| 0 <= j < parts@.len() ==> {
                let (a, b) = #[trigger] parts@[j];
                &&& a <= b <= v@.len()
                &&& v@.subrange(a as int, b as int) == pieces[j]
            },
            parts_positions(pieces.subrange(0, k as int), max as nat) == Some(out@),
        decreases parts.len() - k,
    {
        let (a, b) = parts[k];
        assert(pieces.subrange(0, k + 1).drop_last() =~= pieces.subrange(0, k as int));
        let ok = push_part(&mut out, &v, a, b, max);
        if !ok {
            proof {
                lemma_positions_none(pieces, k + 1, max as nat);
            }
            return None;
        }
        k = k + 1;
    }
    assert(pieces.subrange(0, pieces.len() as int) =~= pieces);
    Some(out)
}

} // verus!
