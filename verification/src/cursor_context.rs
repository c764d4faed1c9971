//! The command around a cursor and the word under it, found on the tokens
//! of the command line.

use crate::shell_tokens::{is_name_char, lex, name_p, Token, TokKind};
use crate::text_buffer::run_fwd;
use vstd::prelude::*;

verus! {

/// Number of leading tokens that start before character position `c`.
pub open spec fn count_before(t: Seq<Token>, c: int) -> nat
    decreases t.len(),
{
    if t.len() > 0 && (t[0].start as int) < c {
        1 + count_before(t.drop_first(), c)
    } else {
        0
    }
}

/// The innermost nested context (index of its `Open` token) around `c`: an
/// opening token counts once the cursor is past it, a closing token once
/// the cursor is inside or past it.
pub open spec fn cursor_region(t: Seq<Token>, c: int) -> Option<usize> {
    let k = count_before(t, c);
    if k == 0 {
        None
    } else {
        let x = t[k - 1];
        if x.kind == TokKind::Open && x.end <= c {
            Some((k - 1) as usize)
        } else {
            x.region
        }
    }
}

/// Index of the token closing the context opened at `o`, searching from `j`.
pub open spec fn find_close(t: Seq<Token>, o: usize, j: int) -> int
    decreases t.len() - j,
{
    if j < 0 || j >= t.len() {
        t.len() as int
    } else if t[j].kind == TokKind::Close && t[j].mate == Some(o) {
        j
    } else {
        find_close(t, o, j + 1)
    }
}

/// Token index range holding the inside of context `r`.
pub open spec fn region_span(t: Seq<Token>, r: Option<usize>) -> (int, int) {
    match r {
        None => (0, t.len() as int),
        Some(o) => if o < t.len() {
            (o + 1, find_close(t, o, o + 1))
        } else {
            (t.len() as int, t.len() as int)
        },
    }
}

/// Token `j` lies directly in context `r` and separates commands.
pub open spec fn is_sep(t: Seq<Token>, r: Option<usize>, j: int) -> bool {
    t[j].region == r && t[j].kind == TokKind::Sep
}

/// Token `j` lies directly in context `r` and separates words.
pub open spec fn is_space(t: Seq<Token>, r: Option<usize>, j: int) -> bool {
    t[j].region == r && t[j].kind == TokKind::Space
}

/// Start of the command holding `c`: just after the last separator in
/// `lo..j` that ends at or before `c`.
pub open spec fn seg_lo(t: Seq<Token>, r: Option<usize>, lo: int, j: int, c: int) -> int
    decreases j - lo,
{
    if j <= lo {
        lo
    } else if is_sep(t, r, j - 1) && t[j - 1].end <= c {
        j
    } else {
        seg_lo(t, r, lo, j - 1, c)
    }
}

/// End of the command starting at `j`: the next separator, or `hi`.
pub open spec fn seg_hi(t: Seq<Token>, r: Option<usize>, j: int, hi: int) -> int
    decreases hi - j,
{
    if j >= hi {
        hi
    } else if is_sep(t, r, j) {
        j
    } else {
        seg_hi(t, r, j + 1, hi)
    }
}

/// First token at or after `j` (before `b`) that is not a word gap.
pub open spec fn skip_space(t: Seq<Token>, r: Option<usize>, j: int, b: int) -> int
    decreases b - j,
{
    if j >= b {
        b
    } else if is_space(t, r, j) {
        skip_space(t, r, j + 1, b)
    } else {
        j
    }
}

/// End of the shell word starting at `j`: the next word gap, or `b`.
pub open spec fn group_end(t: Seq<Token>, r: Option<usize>, j: int, b: int) -> int
    decreases b - j,
{
    if j >= b {
        b
    } else if is_space(t, r, j) {
        j
    } else {
        group_end(t, r, j + 1, b)
    }
}

/// `w` starts with `NAME=`.
pub open spec fn assign_word(w: Seq<char>) -> bool {
    let k = run_fwd(w, 0, name_p());
    0 < k < w.len() && w[k] == '=' && !((w[0] as u32) >= 0x30 && (w[0] as u32) <= 0x39)
}

/// The shell word starting at token `j` is a variable assignment.
pub open spec fn is_assignment(s: Seq<char>, t: Seq<Token>, r: Option<usize>, j: int) -> bool {
    &&& t[j].region == r
    &&& t[j].kind == TokKind::Word
    &&& assign_word(s.subrange(t[j].start as int, t[j].end as int))
}

/// `y` without the trailing word gaps that start at or after `c`.
pub open spec fn trim_end(t: Seq<Token>, r: Option<usize>, x: int, y: int, c: int) -> int
    decreases y - x,
{
    if y <= x {
        y
    } else if is_space(t, r, y - 1) && t[y - 1].start >= c {
        trim_end(t, r, x, y - 1, c)
    } else {
        y
    }
}

/// Tokens of the command context, scanning the shell words of the command
/// `a..b` from word start `j`: an assignment holding the cursor is the
/// context on its own; a cursor between the leading assignments and the
/// command word has only the gap around it; otherwise the context runs
/// from the command word to the end of the command.
pub open spec fn pick(
    s: Seq<char>,
    t: Seq<Token>,
    r: Option<usize>,
    a: int,
    j: int,
    b: int,
    c: int,
    seen: bool,
    prev: int,
) -> (int, int)
    decreases b - j,
{
    if j >= b || j < 0 {
        if seen {
            (prev, b)
        } else {
            (a, b)
        }
    } else if is_assignment(s, t, r, j) {
        let e = group_end(t, r, j, b);
        let e = if e <= j {
            j + 1
        } else if e > b {
            b
        } else {
            e
        };
        if t[j].start <= c && c <= t[e - 1].end {
            (j, e)
        } else {
            let nx = skip_space(t, r, e, b);
            let nx = if nx < e {
                e
            } else if nx > b {
                b
            } else {
                nx
            };
            pick(s, t, r, a, nx, b, c, true, e)
        }
    } else if seen && c < t[j].start {
        (prev, j)
    } else {
        (j, trim_end(t, r, j, b, c))
    }
}

/// Token range of the command context around `c`.
pub open spec fn context_range(s: Seq<char>, t: Seq<Token>, c: int) -> (int, int) {
    let r = cursor_region(t, c);
    let (lo, hi) = region_span(t, r);
    let a = seg_lo(t, r, lo, hi, c);
    let b = seg_hi(t, r, a, hi);
    pick(s, t, r, a, skip_space(t, r, a, b), b, c, false, a)
}

/// First token in `j..y` containing `c` (ends included), skipping gaps
/// when `nonspace`.
pub open spec fn find_node(t: Seq<Token>, j: int, y: int, c: int, nonspace: bool) -> Option<int>
    decreases y - j,
{
    if j >= y || j < 0 {
        None
    } else if (!nonspace || t[j].kind != TokKind::Space) && t[j].start <= c && c <= t[j].end {
        Some(j)
    } else {
        find_node(t, j + 1, y, c, nonspace)
    }
}

/// The token under the cursor: a non-gap token containing it if any,
/// else any token containing it.
pub open spec fn cursor_node(t: Seq<Token>, x: int, y: int, c: int) -> Option<int> {
    match find_node(t, x, y, c, true) {
        Some(j) => Some(j),
        None => find_node(t, x, y, c, false),
    }
}

/// Some character of `s[a..b]` is `ch`.
pub open spec fn range_has(s: Seq<char>, a: int, b: int, ch: char) -> bool {
    exists|k: int| a <= k < b && 0 <= k < s.len() && s[k] == ch
}

/// `e` moved left over spaces.
pub open spec fn trim_spaces(s: Seq<char>, e: int) -> int
    decreases e,
{
    if 0 < e <= s.len() && s[e - 1] == ' ' {
        trim_spaces(s, e - 1)
    } else {
        e
    }
}

/// The word under the cursor grown leftwards over the tokens `x..=i`
/// before it: a variable name (then dropping trailing spaces), an opening
/// quote, a path part, a `$`, or a whole brace group.
pub open spec fn extend(
    s: Seq<char>,
    t: Seq<Token>,
    x: int,
    y: int,
    i: int,
    start: int,
    end: int,
    slash: bool,
) -> (int, int)
    decreases i - x + 1,
{
    if i < x || i < 0 || i >= t.len() {
        (start, end)
    } else {
        let dollar = range_has(s, start, end, '$');
        let u = t[i];
        if u.kind == TokKind::Word && u.env && !dollar {
            extend(s, t, x, y, i - 1, u.start as int, trim_spaces(s, end), slash)
        } else if (u.kind == TokKind::Quote || u.kind == TokKind::SingleQuote) && (!dollar || slash) {
            extend(s, t, x, y, i - 1, u.start as int, end, slash)
        } else if u.kind == TokKind::Word && slash {
            extend(s, t, x, y, i - 1, u.start as int, end, slash)
        } else if u.kind == TokKind::Dollar {
            extend(s, t, x, y, i - 1, u.start as int, end, slash)
        } else if u.kind == TokKind::RBrace {
            match u.mate {
                Some(m) => if x <= m < y && m < t.len() {
                    (t[m as int].start as int, end)
                } else {
                    extend(s, t, x, y, i - 1, start, end, slash)
                },
                None => extend(s, t, x, y, i - 1, start, end, slash),
            }
        } else {
            (start, end)
        }
    }
}

/// Character range of the word under the cursor, the cursor being in
/// token `j` of the context `x..y`.
pub open spec fn wuc_range(s: Seq<char>, t: Seq<Token>, x: int, y: int, j: int, c: int) -> (int, int) {
    let k = t[j].kind;
    if k == TokKind::Space || k == TokKind::Newline {
        (c, c)
    } else if k == TokKind::Word {
        extend(
            s,
            t,
            x,
            y,
            j - 1,
            t[j].start as int,
            t[j].end as int,
            range_has(s, t[j].start as int, t[j].end as int, '/'),
        )
    } else {
        (t[j].start as int, t[j].end as int)
    }
}

/// Every token in `x..y` is a gap.
pub open spec fn all_space(t: Seq<Token>, x: int, y: int) -> bool {
    forall|k: int| x <= k < y ==> t[k].kind == TokKind::Space
}

/// Character positions of the completion context of `s` with the cursor
/// at character position `c`: context start and end, cursor, word start
/// and end. With no token at the cursor everything is 0. `None` where the
/// word found does not contain the cursor.
pub open spec fn completion_chars(s: Seq<char>, c: int) -> Option<(int, int, int, int, int)> {
    let t = lex(s);
    let (x, y) = context_range(s, t, c);
    match cursor_node(t, x, y, c) {
        None => Some((0, 0, 0, 0, 0)),
        Some(j) => {
            let w = wuc_range(s, t, x, y, j, c);
            if !(w.0 <= c && c <= w.1) {
                None
            } else if all_space(t, x, y) {
                Some((c, c, c, w.0, w.1))
            } else {
                Some((t[x].start as int, t[y - 1].end as int, c, w.0, w.1))
            }
        },
    }
}

/// Tokens lie in the text and are not empty.
pub open spec fn tokens_ok(s: Seq<char>, t: Seq<Token>) -> bool {
    &&& forall|k: int| #![trigger t[k]] 0 <= k < t.len() ==> t[k].start < t[k].end <= s.len()
    &&& forall|a: int, b: int| #![trigger t[a], t[b]] 0 <= a < b < t.len() ==> t[a].end <= t[b].start
}

fn same_region(a: Option<usize>, b: Option<usize>) -> (r: bool)
    ensures
        r == (a == b),
{
    match (a, b) {
        (Some(x), Some(y)) => x == y,
        (None, None) => true,
        _ => false,
    }
}

fn is_sep_exec(t: &Vec<Token>, r: Option<usize>, j: usize) -> (b: bool)
    requires
        j < t.len(),
    ensures
        b == is_sep(t@, r, j as int),
{
    same_region(t[j].region, r) && t[j].kind == TokKind::Sep
}

fn is_space_exec(t: &Vec<Token>, r: Option<usize>, j: usize) -> (b: bool)
    requires
        j < t.len(),
    ensures
        b == is_space(t@, r, j as int),
{
    same_region(t[j].region, r) && t[j].kind == TokKind::Space
}

fn cursor_region_exec(t: &Vec<Token>, c: usize) -> (r: Option<usize>)
    ensures
        r == cursor_region(t@, c as int),
{
    let mut k: usize = 0;
    proof {
        assert(t@.skip(0) =~= t@);
    }
    while k < t.len() && t[k].start < c
        invariant
            k <= t.len(),
            count_before(t@.skip(k as int), c as int) + k == count_before(t@, c as int),
        decreases t.len() - k,
    {
        proof {
            assert(t@.skip(k as int)[0] == t@[k as int]);
            assert(t@.skip(k as int).drop_first() =~= t@.skip(k + 1));
        }
        k = k + 1;
    }
    proof {
        if k < t.len() {
            assert(t@.skip(k as int)[0] == t@[k as int]);
        }
    }
    if k == 0 {
        None
    } else {
        let x = t[k - 1];
        if x.kind == TokKind::Open && x.end <= c {
            Some(k - 1)
        } else {
            x.region
        }
    }
}

fn region_span_exec(t: &Vec<Token>, r: Option<usize>) -> (p: (usize, usize))
    ensures
        (p.0 as int, p.1 as int) == region_span(t@, r),
        p.1 <= t.len(),
{
    match r {
        None => (0, t.len()),
        Some(o) => {
            if o < t.len() {
                let mut j = o + 1;
                while j < t.len() && !(t[j].kind == TokKind::Close && same_region(t[j].mate, Some(o)))
                    invariant
                        o < j <= t.len(),
                        find_close(t@, o, j as int) == find_close(t@, o, o + 1),
                    decreases t.len() - j,
                {
                    j = j + 1;
                }
                (o + 1, j)
            } else {
                (t.len(), t.len())
            }
        },
    }
}

fn seg_lo_exec(t: &Vec<Token>, r: Option<usize>, lo: usize, hi: usize, c: usize) -> (a: usize)
    requires
        hi <= t.len(),
    ensures
        a == seg_lo(t@, r, lo as int, hi as int, c as int),
        lo <= hi ==> lo <= a <= hi,
        lo > hi ==> a == lo,
{
    let mut j = hi;
    while j > lo && !(is_sep_exec(t, r, j - 1) && t[j - 1].end <= c)
        invariant
            j <= hi <= t.len(),
            lo <= hi ==> lo <= j,
            lo > hi ==> j == hi,
            seg_lo(t@, r, lo as int, j as int, c as int) == seg_lo(t@, r, lo as int, hi as int, c as int),
        decreases j,
    {
        j = j - 1;
    }
    if j <= lo {
        lo
    } else {
        j
    }
}

fn seg_hi_exec(t: &Vec<Token>, r: Option<usize>, a: usize, hi: usize) -> (b: usize)
    requires
        hi <= t.len(),
    ensures
        b == seg_hi(t@, r, a as int, hi as int),
        a <= hi ==> a <= b <= hi,
        a > hi ==> b == hi,
{
    let mut j = a;
    while j < hi && !is_sep_exec(t, r, j)
        invariant
            hi <= t.len(),
            a <= hi ==> a <= j <= hi,
            a > hi ==> j == a,
            seg_hi(t@, r, j as int, hi as int) == seg_hi(t@, r, a as int, hi as int),
        decreases hi - j,
    {
        j = j + 1;
    }
    if j >= hi {
        hi
    } else {
        j
    }
}

fn skip_space_exec(t: &Vec<Token>, r: Option<usize>, j0: usize, b: usize) -> (j: usize)
    requires
        b <= t.len(),
    ensures
        j == skip_space(t@, r, j0 as int, b as int),
        j0 <= b ==> j0 <= j <= b,
        j0 > b ==> j == b,
{
    let mut j = j0;
    while j < b && is_space_exec(t, r, j)
        invariant
            b <= t.len(),
            j0 <= b ==> j0 <= j <= b,
            j0 > b ==> j == j0,
            skip_space(t@, r, j as int, b as int) == skip_space(t@, r, j0 as int, b as int),
        decreases b - j,
    {
        j = j + 1;
    }
    if j >= b {
        b
    } else {
        j
    }
}

fn group_end_exec(t: &Vec<Token>, r: Option<usize>, j0: usize, b: usize) -> (j: usize)
    requires
        b <= t.len(),
    ensures
        j == group_end(t@, r, j0 as int, b as int),
        j0 <= b ==> j0 <= j <= b,
        j0 > b ==> j == b,
{
    let mut j = j0;
    while j < b && !is_space_exec(t, r, j)
        invariant
            b <= t.len(),
            j0 <= b ==> j0 <= j <= b,
            j0 > b ==> j == j0,
            group_end(t@, r, j as int, b as int) == group_end(t@, r, j0 as int, b as int),
        decreases b - j,
    {
        j = j + 1;
    }
    if j >= b {
        b
    } else {
        j
    }
}

fn is_assignment_exec(v: &Vec<char>, t: &Vec<Token>, r: Option<usize>, j: usize) -> (b: bool)
    requires
        j < t.len(),
        tokens_ok(v@, t@),
    ensures
        b == is_assignment(v@, t@, r, j as int),
{
    if !(same_region(t[j].region, r) && t[j].kind == TokKind::Word) {
        return false;
    }
    assert(t@[j as int].start < t@[j as int].end <= v.len());
    let w = crate::text_buffer::TextBuffer::chars_between_pub(v, t[j].start, t[j].end);
    let k = crate::shell_tokens::run_end(&w, 0, 2);
    if k == 0 || k >= w.len() {
        return false;
    }
    let u = w[0] as u32;
    w[k] == '=' && !(u >= 0x30 && u <= 0x39)
}

fn trim_end_exec(t: &Vec<Token>, r: Option<usize>, x: usize, y0: usize, c: usize) -> (y: usize)
    requires
        y0 <= t.len(),
    ensures
        y == trim_end(t@, r, x as int, y0 as int, c as int),
        y <= y0,
        x <= y0 ==> x <= y,
{
    let mut y = y0;
    while y > x && is_space_exec(t, r, y - 1) && t[y - 1].start >= c
        invariant
            y <= y0 <= t.len(),
            x <= y0 ==> x <= y,
            trim_end(t@, r, x as int, y as int, c as int) == trim_end(t@, r, x as int, y0 as int, c as int),
        decreases y,
    {
        y = y - 1;
    }
    y
}

fn pick_exec(v: &Vec<char>, t: &Vec<Token>, r: Option<usize>, a: usize, j0: usize, b: usize, c: usize) -> (p: (usize, usize))
    requires
        b <= t.len(),
        tokens_ok(v@, t@),
    ensures
        (p.0 as int, p.1 as int) == pick(v@, t@, r, a as int, j0 as int, b as int, c as int, false, a as int),
        p.1 <= t.len(),
{
    let mut j = j0;
    let mut seen = false;
    let mut prev = a;
    while j < b
        invariant
            b <= t.len(),
            tokens_ok(v@, t@),
            prev <= b || prev == a,
            pick(v@, t@, r, a as int, j as int, b as int, c as int, seen, prev as int) == pick(
                v@,
                t@,
                r,
                a as int,
                j0 as int,
                b as int,
                c as int,
                false,
                a as int,
            ),
        decreases b - j,
    {
        if is_assignment_exec(v, t, r, j) {
            let e0 = group_end_exec(t, r, j, b);
            let e = if e0 <= j {
                j + 1
            } else if e0 > b {
                b
            } else {
                e0
            };
            if t[j].start <= c && c <= t[e - 1].end {
                return (j, e);
            }
            let nx0 = skip_space_exec(t, r, e, b);
            let nx = if nx0 < e {
                e
            } else if nx0 > b {
                b
            } else {
                nx0
            };
            seen = true;
            prev = e;
            j = nx;
        } else if seen && c < t[j].start {
            return (prev, j);
        } else {
            let y = trim_end_exec(t, r, j, b, c);
            return (j, y);
        }
    }
    if seen {
        (prev, b)
    } else {
        (a, b)
    }
}

/// Token range of the command context around character position `c`.
pub fn context_range_exec(v: &Vec<char>, t: &Vec<Token>, c: usize) -> (p: (usize, usize))
    requires
        tokens_ok(v@, t@),
    ensures
        (p.0 as int, p.1 as int) == context_range(v@, t@, c as int),
        p.1 <= t.len(),
{
    let r = cursor_region_exec(t, c);
    let (lo, hi) = region_span_exec(t, r);
    let a = seg_lo_exec(t, r, lo, hi, c);
    let b = seg_hi_exec(t, r, a, hi);
    let j = skip_space_exec(t, r, a, b);
    pick_exec(v, t, r, a, j, b, c)
}

fn find_node_exec(t: &Vec<Token>, x: usize, y: usize, c: usize, nonspace: bool) -> (r: Option<usize>)
    requires
        y <= t.len(),
    ensures
        r matches Some(j) ==> j < y && find_node(t@, x as int, y as int, c as int, nonspace) == Some(j as int)
            && t@[j as int].start <= c <= t@[j as int].end,
        r is None ==> find_node(t@, x as int, y as int, c as int, nonspace) is None,
{
    let mut j = x;
    while j < y
        invariant
            y <= t.len(),
            x <= j,
            find_node(t@, j as int, y as int, c as int, nonspace) == find_node(t@, x as int, y as int, c as int, nonspace),
        decreases y - j,
    {
        if (!nonspace || t[j].kind != TokKind::Space) && t[j].start <= c && c <= t[j].end {
            return Some(j);
        }
        j = j + 1;
    }
    None
}

fn range_has_exec(v: &Vec<char>, a: usize, b: usize, ch: char) -> (r: bool)
    ensures
        r == range_has(v@, a as int, b as int, ch),
{
    let e = if b < v.len() {
        b
    } else {
        v.len()
    };
    let mut k = a;
    while k < e
        invariant
            e <= v.len(),
            e <= b,
            a <= k,
            forall|q: int| a <= q < k && q < e ==> v@[q] != ch,
        decreases e - k,
    {
        if v[k] == ch {
            assert(a <= k < b && 0 <= k < v@.len() && v@[k as int] == ch);
            return true;
        }
        k = k + 1;
    }
    false
}

fn trim_spaces_exec(v: &Vec<char>, e0: usize) -> (e: usize)
    ensures
        e == trim_spaces(v@, e0 as int),
        e <= e0,
{
    let mut e = e0;
    while e > 0 && e <= v.len() && v[e - 1] == ' '
        invariant
            e <= e0,
            trim_spaces(v@, e as int) == trim_spaces(v@, e0 as int),
        decreases e,
    {
        e = e - 1;
    }
    e
}

fn extend_exec(
    v: &Vec<char>,
    t: &Vec<Token>,
    x: usize,
    y: usize,
    k0: usize,
    start0: usize,
    end0: usize,
    slash: bool,
) -> (p: (usize, usize))
    requires
        tokens_ok(v@, t@),
        start0 <= v.len(),
        end0 <= v.len(),
    ensures
        p.0 <= v.len(),
        p.1 <= end0,
        (p.0 as int, p.1 as int) == extend(v@, t@, x as int, y as int, k0 - 1, start0 as int, end0 as int, slash),
{
    let mut k = k0;
    let mut start = start0;
    let mut end = end0;
    while k > x && k - 1 < t.len()
        invariant
            tokens_ok(v@, t@),
            start <= v.len(),
            end <= end0,
            extend(v@, t@, x as int, y as int, k - 1, start as int, end as int, slash) == extend(
                v@,
                t@,
                x as int,
                y as int,
                k0 - 1,
                start0 as int,
                end0 as int,
                slash,
            ),
        decreases k,
    {
        let i = k - 1;
        let dollar = range_has_exec(v, start, end, '$');
        let u = t[i];
        if u.kind == TokKind::Word && u.env && !dollar {
            assert(t@[i as int].start <= v.len());
            start = u.start;
            end = trim_spaces_exec(v, end);
        } else if (u.kind == TokKind::Quote || u.kind == TokKind::SingleQuote) && (!dollar || slash) {
            assert(t@[i as int].start <= v.len());
            start = u.start;
        } else if u.kind == TokKind::Word && slash {
            assert(t@[i as int].start <= v.len());
            start = u.start;
        } else if u.kind == TokKind::Dollar {
            assert(t@[i as int].start <= v.len());
            start = u.start;
        } else if u.kind == TokKind::RBrace {
            match u.mate {
                Some(m) => {
                    if x <= m && m < y && m < t.len() {
                        assert(t@[m as int].start <= v.len());
                        return (t[m].start, end);
                    }
                },
                None => {},
            }
        } else {
            return (start, end);
        }
        k = k - 1;
    }
    (start, end)
}

/// Character positions of the completion context of `v` around character
/// position `c` (see `completion_chars`).
pub fn completion_chars_exec(v: &Vec<char>, c: usize) -> (r: Option<(usize, usize, usize, usize, usize)>)
    requires
        v.len() <= usize::MAX,
    ensures
        match (r, completion_chars(v@, c as int)) {
            (Some(a), Some(b)) => a.0 as int == b.0 && a.1 as int == b.1 && a.2 as int == b.2
                && a.3 as int == b.3 && a.4 as int == b.4,
            (None, None) => true,
            _ => false,
        },
        r matches Some(a) ==> a.0 <= a.1 <= v.len() && a.3 <= a.2 <= a.4 <= v.len(),
{
    let t = crate::shell_tokens::lex_exec(v);
    proof {
        crate::shell_tokens::lemma_lex_wf(v@);
    }
    let (x, y) = context_range_exec(v, &t, c);
    let node = match find_node_exec(&t, x, y, c, true) {
        Some(j) => Some(j),
        None => find_node_exec(&t, x, y, c, false),
    };
    match node {
        None => Some((0, 0, 0, 0, 0)),
        Some(j) => {
            assert(t@[j as int].start <= c <= t@[j as int].end <= v.len());
            let kd = t[j].kind;
            let (ws, we) = if kd == TokKind::Space || kd == TokKind::Newline {
                (c, c)
            } else if kd == TokKind::Word {
                let slash = range_has_exec(v, t[j].start, t[j].end, '/');
                extend_exec(v, &t, x, y, j, t[j].start, t[j].end, slash)
            } else {
                (t[j].start, t[j].end)
            };
            if !(ws <= c && c <= we) {
                return None;
            }
            let mut all = true;
            let mut k = x;
            while k < y
                invariant
                    y <= t.len(),
                    x <= k,
                    x <= y ==> k <= y,
                    all == (forall|q: int| x <= q < k ==> t@[q].kind == TokKind::Space),
                decreases y - k,
            {
                if t[k].kind != TokKind::Space {
                    all = false;
                }
                k = k + 1;
            }
            proof {
                if x < y {
                    assert(all == all_space(t@, x as int, y as int));
                } else {
                    assert(all_space(t@, x as int, y as int));
                }
            }
            if all {
                Some((c, c, c, ws, we))
            } else {
                assert(x < y);
                assert(t@[x as int].start < t@[x as int].end <= v.len());
                assert(t@[y - 1].start < t@[y - 1].end <= v.len());
                if x < y - 1 {
                    assert(t@[x as int].end <= t@[y - 1].start);
                }
                Some((t[x].start, t[y - 1].end, c, ws, we))
            }
        },
    }
}

} // verus!
