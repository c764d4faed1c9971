//! Finding the current working directory in rendered prompt text, so that
//! its path segments can be made selectable; the frames of prompt
//! animations; and the text shown for a failed prompt widget.

use crate::prompt_string::{seg_views, PromptSegment, SegView};
use crate::text_buffer::{run_back, run_fwd, lemma_run_back_le};
use crate::text_ops::{
    char_fields, char_fields_exec, trim, trim_exec, find_from, find_from_exec, has_prefix, has_prefix_exec, is_char_p, occurrences, slice_chars,
    trim_end_char, trim_end_char_exec,
};
use crate::unicode::{
    append_chars, byte_len, byte_offset, byte_offset_of, char_pos_for_byte, char_pos_of_byte,
    chars_of, is_boundary, str_byte_len, string_of,
};
use crate::content_builder::{SpanTag, Tag, TaggedLine, TaggedSpan};
use crate::content_utils::{spans_view, StyledSpan};
use crate::settings::Placeholder;
use crate::style::{patched, plain_style, Colour, TextStyle};
use crate::unicode::{decimal, decimal_chars};
use vstd::prelude::*;

verus! {

/// `path` without trailing slashes, except that `/` stays `/`.
pub open spec fn normalize_spec(path: Seq<char>) -> Seq<char> {
    if path == seq!['/'] {
        path
    } else {
        trim_end_char(path, '/')
    }
}

/// The forms of the working directory to look for: the path itself and,
/// under `home`, its `~` form when that differs.
pub open spec fn representations_spec(cwd: Seq<char>, home: Option<Seq<char>>) -> Seq<Seq<char>> {
    let c = normalize_spec(cwd);
    if c.len() == 0 {
        Seq::empty()
    } else {
        match home {
            Some(h0) => {
                let h = normalize_spec(h0);
                let rest = c.skip(h.len() as int);
                if h.len() > 0 && has_prefix(c, h) && (rest.len() == 0 || rest[0] == '/') && seq![
                    '~',
                ] + rest != c {
                    seq![c, seq!['~'] + rest]
                } else {
                    seq![c]
                }
            },
            None => seq![c],
        }
    }
}

pub open spec fn not_slash_p() -> spec_fn(char) -> bool {
    |x: char| x != '/'
}

/// The last path segment of `cwd`, or `/` for the root or an empty path.
pub open spec fn folder_spec(cwd: Seq<char>) -> Seq<char> {
    let c = trim_end_char(cwd, '/');
    if c.len() == 0 || c == seq!['/'] {
        seq!['/']
    } else {
        c.skip(run_back(c, c.len() as int, not_slash_p()))
    }
}

/// A match starting at character `k` widened over an ellipsis (`…` or a
/// run of dots) just before it.
pub open spec fn ext_start(text: Seq<char>, k: int) -> int {
    if 0 < k <= text.len() && text[k - 1] == '…' {
        k - 1
    } else {
        run_back(text, k, is_char_p('.'))
    }
}

/// A match ending at character `e` widened over a slash just after it.
pub open spec fn ext_end(text: Seq<char>, e: int) -> int {
    if 0 <= e < text.len() && text[e] == '/' {
        e + 1
    } else {
        e
    }
}

/// Byte length of the character range `a..b` of `text`.
pub open spec fn blen(text: Seq<char>, r: (int, int)) -> int {
    byte_offset(text, r.1) - byte_offset(text, r.0)
}

/// The first of the longest (in bytes) ranges of `cs`.
pub open spec fn longest(text: Seq<char>, cs: Seq<(int, int)>) -> Option<(int, int)>
    decreases cs.len(),
{
    if cs.len() == 0 {
        None
    } else {
        let b = longest(text, cs.drop_last());
        let c = cs.last();
        match b {
            None => Some(c),
            Some(x) => if blen(text, c) > blen(text, x) {
                Some(c)
            } else {
                b
            },
        }
    }
}

/// The widened ranges of the occurrences of `suffix` in `text`.
pub open spec fn suffix_candidates(text: Seq<char>, suffix: Seq<char>) -> Seq<(int, int)> {
    occurrences(text, suffix, 0).map_values(
        |k: int| (ext_start(text, k), ext_end(text, k + suffix.len())),
    )
}

/// The longest widened occurrence of `suffix` in `text`.
pub open spec fn best_range_spec(text: Seq<char>, suffix: Seq<char>) -> Option<(int, int)> {
    longest(text, suffix_candidates(text, suffix))
}

/// For the representation `rep`: the match of its longest suffix (starting
/// at a character position `j` or later, no later than byte `max_start`)
/// that occurs in `text`.
pub open spec fn suffix_match(text: Seq<char>, rep: Seq<char>, max_start: int, j: int) -> Option<(int, int)>
    decreases rep.len() + 1 - j,
{
    if j < 0 || j > rep.len() || byte_offset(rep, j) > max_start {
        None
    } else {
        match best_range_spec(text, rep.skip(j)) {
            Some(c) => Some(c),
            None => suffix_match(text, rep, max_start, j + 1),
        }
    }
}

/// The per-representation matches for the working directory.
pub open spec fn rep_matches(text: Seq<char>, reps: Seq<Seq<char>>, folder: Seq<char>) -> Seq<(int, int)>
    decreases reps.len(),
{
    if reps.len() == 0 {
        Seq::empty()
    } else {
        let rep = reps.last();
        let ms = if byte_len(rep) >= byte_len(folder) {
            byte_len(rep) - byte_len(folder)
        } else {
            0
        };
        let before = rep_matches(text, reps.drop_last(), folder);
        match suffix_match(text, rep, ms, 0) {
            Some(c) => before.push(c),
            None => before,
        }
    }
}

/// Character range of the longest substring of `text` that looks like the
/// working directory: the longest suffix (keeping at least the current
/// folder name) of one of its representations, widened over an adjacent
/// ellipsis or trailing slash.
pub open spec fn find_cwd_spec(text: Seq<char>, cwd: Seq<char>, home: Option<Seq<char>>) -> Option<(int, int)> {
    longest(text, rep_matches(text, representations_spec(cwd, home), folder_spec(cwd)))
}

/// The view of an optional string.
pub open spec fn opt_str(o: Option<&str>) -> Option<Seq<char>> {
    match o {
        Some(s) => Some(s@),
        None => None,
    }
}

/// `path` without trailing slashes, except that `/` stays `/`.
pub fn normalize_cwd_for_matching(path: &str) -> (r: String)
    ensures
        r@ == normalize_spec(path@),
{
    let v = chars_of(path);
    if v.len() == 1 && v[0] == '/' {
        assert(v@ =~= seq!['/']);
        return path.to_owned();
    }
    proof {
        if v@ == seq!['/'] {
            assert(v@[0] == '/');
        }
    }
    string_of(&trim_end_char_exec(&v, '/'))
}

/// The forms of `cwd` to look for in the prompt (see `representations_spec`).
pub fn cwd_representations(cwd: &str, home: Option<&str>) -> (r: Vec<String>)
    ensures
        r@.map_values(|s: String| s@) == representations_spec(cwd@, opt_str(home)),
{
    let c = normalize_cwd_for_matching(cwd);
    let cv = chars_of(c.as_str());
    if cv.len() == 0 {
        let r: Vec<String> = Vec::new();
        assert(r@.map_values(|s: String| s@) =~= Seq::<Seq<char>>::empty());
        return r;
    }
    let mut r: Vec<String> = Vec::new();
    r.push(c);
    match home {
        Some(h0) => {
            let h = normalize_cwd_for_matching(h0);
            let hv = chars_of(h.as_str());
            if hv.len() > 0 && has_prefix_exec(&cv, &hv) {
                let rest = slice_chars(&cv, hv.len(), cv.len());
                assert(rest@ =~= cv@.skip(hv.len() as int));
                if rest.len() == 0 || rest[0] == '/' {
                    let mut t: Vec<char> = Vec::new();
                    t.push('~');
                    crate::unicode::append_chars(&mut t, &rest);
                    assert(t@ =~= seq!['~'] + rest@);
                    if !crate::text_buffer::same_chars_pub(&t, &cv) {
                        r.push(string_of(&t));
                    }
                }
            }
        },
        None => {},
    }
    assert(r@.map_values(|s: String| s@) =~= representations_spec(cwd@, opt_str(home)));
    r
}

/// The last path segment of `cwd`, or `/` for the root or an empty path.
pub fn current_folder_name(cwd: &str) -> (r: Option<String>)
    ensures
        r matches Some(x) && x@ == folder_spec(cwd@),
{
    let v = chars_of(cwd);
    let c = trim_end_char_exec(&v, '/');
    if c.len() == 0 || (c.len() == 1 && c[0] == '/') {
        proof {
            if c.len() == 1 {
                assert(c@ =~= seq!['/']);
            }
        }
        let mut s: Vec<char> = Vec::new();
        s.push('/');
        assert(s@ =~= seq!['/']);
        return Some(string_of(&s));
    }
    proof {
        if c@ == seq!['/'] {
            assert(c@[0] == '/');
        }
    }
    let mut k = c.len();
    while k > 0 && c[k - 1] != '/'
        invariant
            k <= c.len(),
            run_back(c@, k as int, not_slash_p()) == run_back(c@, c.len() as int, not_slash_p()),
        decreases k,
    {
        k = k - 1;
    }
    let seg = slice_chars(&c, k, c.len());
    assert(seg@ =~= c@.skip(k as int));
    Some(string_of(&seg))
}

fn ext_start_exec(v: &Vec<char>, k: usize) -> (r: usize)
    requires
        k <= v.len(),
    ensures
        r == ext_start(v@, k as int),
        r <= k,
{
    if k > 0 && v[k - 1] == '…' {
        return k - 1;
    }
    let mut d = k;
    while d > 0 && v[d - 1] == '.'
        invariant
            d <= k <= v.len(),
            run_back(v@, d as int, is_char_p('.')) == run_back(v@, k as int, is_char_p('.')),
        decreases d,
    {
        d = d - 1;
    }
    d
}

fn ext_end_exec(v: &Vec<char>, e: usize) -> (r: usize)
    requires
        e <= v.len(),
    ensures
        r == ext_end(v@, e as int),
        r <= v.len(),
{
    if e < v.len() && v[e] == '/' {
        e + 1
    } else {
        e
    }
}

/// Byte offset at character `k` of the text of `v`.
fn boff(v: &Vec<char>, k: usize) -> (b: usize)
    requires
        k <= v.len(),
        byte_len(v@) <= usize::MAX,
    ensures
        b == byte_offset(v@, k as int),
{
    byte_offset_of(v, k)
}

/// Whether `c` is strictly longer (in bytes) than `b`, where `c.0 <= c.1`
/// and `b.0 <= b.1` lie in the text.
fn longer(v: &Vec<char>, c: (usize, usize), b: (usize, usize)) -> (r: bool)
    requires
        c.0 <= c.1 <= v.len(),
        b.0 <= b.1 <= v.len(),
        byte_len(v@) <= usize::MAX,
    ensures
        r == (blen(v@, (c.0 as int, c.1 as int)) > blen(v@, (b.0 as int, b.1 as int))),
{
    proof {
        crate::unicode::lemma_byte_offset_mono(v@, c.0 as int, c.1 as int);
        crate::unicode::lemma_byte_offset_mono(v@, b.0 as int, b.1 as int);
    }
    let cl = boff(v, c.1) - boff(v, c.0);
    let bl = boff(v, b.1) - boff(v, b.0);
    cl > bl
}

/// The longest widened occurrence of `suffix` in `v` (character positions).
fn best_range_chars(v: &Vec<char>, suffix: &Vec<char>) -> (r: Option<(usize, usize)>)
    requires
        byte_len(v@) <= usize::MAX,
    ensures
        match (r, best_range_spec(v@, suffix@)) {
            (Some(x), Some(y)) => x.0 as int == y.0 && x.1 as int == y.1 && x.0 <= x.1 <= v.len(),
            (None, None) => true,
            _ => false,
        },
{
    let ghost all = suffix_candidates(v@, suffix@);
    let ghost occ = occurrences(v@, suffix@, 0);
    let mut best: Option<(usize, usize)> = None;
    let mut i: usize = 0;
    let ghost mut n: int = 0;
    proof {
        lemma_occurrences_split(v@, suffix@, 0);
    }
    while i <= v.len()
        invariant
            byte_len(v@) <= usize::MAX,
            0 <= n <= occ.len(),
            occ == occurrences(v@, suffix@, 0),
            occ.subrange(n, occ.len() as int) == occurrences(v@, suffix@, i as int),
            all == occ.map_values(|k: int| (ext_start(v@, k), ext_end(v@, k + suffix@.len()))),
            match (best, longest(v@, all.take(n))) {
                (Some(x), Some(y)) => x.0 as int == y.0 && x.1 as int == y.1 && x.0 <= x.1 <= v.len(),
                (None, None) => true,
                _ => false,
            },
        decreases v.len() + 1 - i,
    {
        proof {
            if suffix.len() == 0 {
                assert(v@.subrange(i as int, i as int) =~= suffix@);
            }
        }
        match find_from_exec(v, suffix, i) {
            None => {
                proof {
                    assert(occurrences(v@, suffix@, i as int) =~= Seq::<int>::empty());
                    assert(n == occ.len());
                    assert(all.take(n) =~= all);
                }
                return best;
            },
            Some(k) => {
                let s = ext_start_exec(v, k);
                let e = ext_end_exec(v, k + suffix.len());
                let c = (s, e);
                proof {
                    let nx = if suffix.len() > 0 {
                        k + suffix.len()
                    } else {
                        k + 1
                    };
                    assert(occurrences(v@, suffix@, i as int) == seq![k as int] + occurrences(
                        v@,
                        suffix@,
                        nx,
                    ));
                    assert(occ.subrange(n, occ.len() as int)[0] == k);
                    assert(occ[n] == k);
                    assert(all.take(n + 1).drop_last() =~= all.take(n));
                    assert(all.take(n + 1).last() == (s as int, e as int));
                    assert(occ.subrange(n + 1, occ.len() as int) =~= occ.subrange(n, occ.len() as int).drop_first());
                }
                best = match best {
                    None => Some(c),
                    Some(b) => if longer(v, c, b) {
                        Some(c)
                    } else {
                        Some(b)
                    },
                };
                proof {
                    n = n + 1;
                }
                if suffix.len() > 0 {
                    i = k + suffix.len();
                } else if k < v.len() {
                    i = k + 1;
                } else {
                    proof {
                        assert(occurrences(v@, suffix@, k + 1) =~= Seq::<int>::empty());
                        assert(occ.subrange(n, occ.len() as int).len() == 0);
                        assert(all.take(n) =~= all);
                    }
                    return best;
                }
            },
        }
    }
    proof {
        assert(occurrences(v@, suffix@, i as int) =~= Seq::<int>::empty());
        assert(all.take(n) =~= all);
    }
    best
}

proof fn lemma_occurrences_split(s: Seq<char>, p: Seq<char>, i: int)
    ensures
        occurrences(s, p, i).subrange(0, occurrences(s, p, i).len() as int) == occurrences(s, p, i),
{
    assert(occurrences(s, p, i).subrange(0, occurrences(s, p, i).len() as int) =~= occurrences(s, p, i));
}

/// A CWD match starting at byte `start` widened over an ellipsis just
/// before it (`…` or a run of dots).
pub fn extend_cwd_match_start_for_ellipsis(text: &str, start: usize) -> (r: usize)
    requires
        is_boundary(text@, start as int),
    ensures
        r == byte_offset(text@, ext_start(text@, char_pos_of_byte(text@, start as int))),
{
    let n = str_byte_len(text);
    let v = chars_of(text);
    match char_pos_for_byte(&v, start) {
        Some(k) => {
            let s = ext_start_exec(&v, k);
            byte_offset_of(&v, s)
        },
        None => {
            assert(false);
            0
        },
    }
}

/// A CWD match ending at byte `end` widened over a slash just after it.
pub fn extend_cwd_match_end_for_trailing_slash(text: &str, end: usize) -> (r: usize)
    requires
        is_boundary(text@, end as int),
    ensures
        r == byte_offset(text@, ext_end(text@, char_pos_of_byte(text@, end as int))),
{
    let n = str_byte_len(text);
    let v = chars_of(text);
    match char_pos_for_byte(&v, end) {
        Some(k) => {
            let e = ext_end_exec(&v, k);
            byte_offset_of(&v, e)
        },
        None => {
            assert(false);
            0
        },
    }
}

/// Byte range of a character range.
pub open spec fn byte_range(text: Seq<char>, r: Option<(int, int)>) -> Option<(int, int)> {
    match r {
        Some((a, b)) => Some((byte_offset(text, a) as int, byte_offset(text, b) as int)),
        None => None,
    }
}

/// The view of an optional byte range.
pub open spec fn range_view(r: Option<std::ops::Range<usize>>) -> Option<(int, int)> {
    match r {
        Some(x) => Some((x.start as int, x.end as int)),
        None => None,
    }
}

fn to_byte_range(v: &Vec<char>, r: Option<(usize, usize)>) -> (b: Option<std::ops::Range<usize>>)
    requires
        byte_len(v@) <= usize::MAX,
        r matches Some(x) ==> x.0 <= x.1 <= v.len(),
    ensures
        range_view(b) == byte_range(v@, match r {
            Some(x) => Some((x.0 as int, x.1 as int)),
            None => None,
        }),
{
    match r {
        Some((a, e)) => Some(byte_offset_of(v, a)..byte_offset_of(v, e)),
        None => None,
    }
}

/// The longest occurrence of `suffix` in `text`, widened over an adjacent
/// ellipsis or trailing slash (the first such when several are longest).
pub fn best_range_for_suffix(text: &str, suffix: &str) -> (r: Option<std::ops::Range<usize>>)
    ensures
        range_view(r) == byte_range(text@, best_range_spec(text@, suffix@)),
{
    let n = str_byte_len(text);
    let v = chars_of(text);
    let p = chars_of(suffix);
    let c = best_range_chars(&v, &p);
    to_byte_range(&v, c)
}

fn suffix_match_exec(v: &Vec<char>, rep: &Vec<char>, max_start: usize) -> (r: Option<(usize, usize)>)
    requires
        byte_len(v@) <= usize::MAX,
        byte_len(rep@) <= usize::MAX,
    ensures
        match (r, suffix_match(v@, rep@, max_start as int, 0)) {
            (Some(x), Some(y)) => x.0 as int == y.0 && x.1 as int == y.1 && x.0 <= x.1 <= v.len(),
            (None, None) => true,
            _ => false,
        },
{
    let mut j: usize = 0;
    while j <= rep.len()
        invariant
            byte_len(v@) <= usize::MAX,
            byte_len(rep@) <= usize::MAX,
            suffix_match(v@, rep@, max_start as int, j as int) == suffix_match(v@, rep@, max_start as int, 0),
        decreases rep.len() + 1 - j,
    {
        if byte_offset_of(rep, j) > max_start {
            return None;
        }
        let suffix = slice_chars(rep, j, rep.len());
        assert(suffix@ =~= rep@.skip(j as int));
        match best_range_chars(v, &suffix) {
            Some(c) => {
                return Some(c);
            },
            None => {},
        }
        if j == rep.len() {
            assert(suffix_match(v@, rep@, max_start as int, j + 1) is None);
            return None;
        }
        j = j + 1;
    }
    None
}

/// Byte range of the longest substring of `text` that looks like the
/// working directory `cwd` (see `find_cwd_spec`).
pub fn find_cwd_in_span(text: &str, cwd: &str, home: Option<&str>) -> (r: Option<std::ops::Range<usize>>)
    ensures
        range_view(r) == byte_range(text@, find_cwd_spec(text@, cwd@, opt_str(home))),
{
    let n = str_byte_len(text);
    let v = chars_of(text);
    let best = find_cwd_chars(&v, cwd, home);
    to_byte_range(&v, best)
}

/// Character range of the longest substring of `v` that looks like the
/// working directory `cwd` (see `find_cwd_spec`).
pub fn find_cwd_chars(v: &Vec<char>, cwd: &str, home: Option<&str>) -> (r: Option<(usize, usize)>)
    requires
        byte_len(v@) <= usize::MAX,
    ensures
        match (r, find_cwd_spec(v@, cwd@, opt_str(home))) {
            (Some(x), Some(y)) => x.0 as int == y.0 && x.1 as int == y.1 && x.0 <= x.1 <= v.len(),
            (None, None) => true,
            _ => false,
        },
{
    let folder = match current_folder_name(cwd) {
        Some(f) => f,
        None => {
            assert(false);
            String::new()
        },
    };
    let fl = str_byte_len(folder.as_str());
    let reps = cwd_representations(cwd, home);
    let ghost rs = reps@.map_values(|s: String| s@);
    let mut best: Option<(usize, usize)> = None;
    let mut i: usize = 0;
    while i < reps.len()
        invariant
            byte_len(v@) <= usize::MAX,
            rs == reps@.map_values(|s: String| s@),
            rs == representations_spec(cwd@, opt_str(home)),
            folder@ == folder_spec(cwd@),
            fl == byte_len(folder@),
            i <= reps.len(),
            match (best, longest(v@, rep_matches(v@, rs.take(i as int), folder@))) {
                (Some(x), Some(y)) => x.0 as int == y.0 && x.1 as int == y.1 && x.0 <= x.1 <= v.len(),
                (None, None) => true,
                _ => false,
            },
        decreases reps.len() - i,
    {
        let rep = chars_of(reps[i].as_str());
        let rl = str_byte_len(reps[i].as_str());
        let ms = if rl >= fl {
            rl - fl
        } else {
            0
        };
        let m = suffix_match_exec(v, &rep, ms);
        proof {
            assert(rs.take(i + 1).drop_last() =~= rs.take(i as int));
            assert(rs.take(i + 1).last() == rep@);
        }
        match m {
            Some(c) => {
                proof {
                    let before = rep_matches(v@, rs.take(i as int), folder@);
                    let cc = (c.0 as int, c.1 as int);
                    assert(before.push(cc).drop_last() =~= before);
                }
                best = match best {
                    None => Some(c),
                    Some(b) => if longer(v, c, b) {
                        Some(c)
                    } else {
                        Some(b)
                    },
                };
            },
            None => {},
        }
        i = i + 1;
    }
    proof {
        assert(rs.take(reps.len() as int) =~= rs);
    }
    best
}

/// The pieces of a path: each `/` on its own, and each name between them.
pub open spec fn split_path(s: Seq<char>) -> Seq<Seq<char>>
    decreases s.len(),
{
    if s.len() == 0 {
        Seq::empty()
    } else if s[0] == '/' {
        seq![seq!['/']] + split_path(s.skip(1))
    } else {
        let k = crate::text_buffer::run_fwd(s, 0, not_slash_p());
        if k <= 0 || k > s.len() {
            seq![s]
        } else {
            seq![s.take(k)] + split_path(s.skip(k))
        }
    }
}

/// The pieces of a displayed working directory: a leading `~` (when a
/// slash follows it somewhere) as one piece, then the pieces of the path.
pub open spec fn split_cwd_spec(text: Seq<char>) -> Seq<Seq<char>> {
    if text.len() == 0 {
        Seq::empty()
    } else if text[0] == '~' {
        match find_from(text, seq!['/'], 1) {
            Some(k) => seq![seq!['~']] + split_path(text.skip(k)),
            None => seq![text],
        }
    } else {
        split_path(text)
    }
}

fn split_path_exec(v: &Vec<char>, start: usize, out: &mut Vec<String>)
    requires
        start <= v.len(),
    ensures
        final(out)@.map_values(|x: String| x@) == old(out)@.map_values(|x: String| x@) + split_path(v@.skip(start as int)),
{
    let mut i = start;
    while i < v.len()
        invariant
            start <= i <= v.len(),
            out@.map_values(|x: String| x@) + split_path(v@.skip(i as int)) == old(out)@.map_values(|x: String| x@) + split_path(v@.skip(start as int)),
        decreases v.len() - i,
    {
        let ghost before = out@.map_values(|x: String| x@);
        let ghost rest = v@.skip(i as int);
        if v[i] == '/' {
            let mut p: Vec<char> = Vec::new();
            p.push('/');
            assert(p@ =~= seq!['/']);
            out.push(string_of(&p));
            proof {
                assert(rest.skip(1) =~= v@.skip(i + 1));
                assert(out@.map_values(|x: String| x@) =~= before.push(seq!['/']));
                assert(before.push(seq!['/']) + split_path(v@.skip(i + 1)) =~= before + (seq![seq!['/']] + split_path(rest.skip(1))));
            }
            i = i + 1;
        } else {
            let mut k = i;
            while k < v.len() && v[k] != '/'
                invariant
                    i <= k <= v.len(),
                    crate::text_buffer::run_fwd(rest, k - i, not_slash_p()) == crate::text_buffer::run_fwd(rest, 0, not_slash_p()),
                    rest == v@.skip(i as int),
                decreases v.len() - k,
            {
                k = k + 1;
            }
            let piece = slice_chars(v, i, k);
            out.push(string_of(&piece));
            proof {
                let kk = k - i;
                assert(piece@ =~= rest.take(kk));
                assert(rest.skip(kk) =~= v@.skip(k as int));
                assert(out@.map_values(|x: String| x@) =~= before.push(rest.take(kk)));
                assert(before.push(rest.take(kk)) + split_path(v@.skip(k as int)) =~= before + (seq![rest.take(kk)] + split_path(rest.skip(kk))));
            }
            i = k;
        }
    }
    proof {
        assert(v@.skip(i as int) =~= Seq::<char>::empty());
        assert(out@.map_values(|x: String| x@) + Seq::<Seq<char>>::empty() =~= out@.map_values(|x: String| x@));
    }
}

/// The pieces of a displayed working directory (see `split_cwd_spec`):
/// `"~/foo/bar"` gives `~`, `/`, `foo`, `/`, `bar`.
pub fn split_cwd_text_into_spans(text: &str) -> (r: Vec<String>)
    ensures
        r@.map_values(|x: String| x@) == split_cwd_spec(text@),
{
    let v = chars_of(text);
    let mut out: Vec<String> = Vec::new();
    if v.len() == 0 {
        assert(out@.map_values(|x: String| x@) =~= Seq::<Seq<char>>::empty());
        return out;
    }
    if v[0] == '~' {
        let mut slash: Vec<char> = Vec::new();
        slash.push('/');
        assert(slash@ =~= seq!['/']);
        match find_from_exec(&v, &slash, 1) {
            Some(k) => {
                let mut t: Vec<char> = Vec::new();
                t.push('~');
                assert(t@ =~= seq!['~']);
                out.push(string_of(&t));
                assert(out@.map_values(|x: String| x@) =~= seq![seq!['~']]);
                split_path_exec(&v, k, &mut out);
            },
            None => {
                out.push(text.to_owned());
                assert(out@.map_values(|x: String| x@) =~= seq![text@]);
            },
        }
    } else {
        assert(v@.skip(0) =~= v@);
        assert(out@.map_values(|x: String| x@) =~= Seq::<Seq<char>>::empty());
        split_path_exec(&v, 0, &mut out);
        assert(Seq::<Seq<char>>::empty() + split_path(v@) =~= split_path(v@));
    }
    out
}

/// The pieces of the first working-directory segment among `segs[i..]`.
pub open spec fn first_cwd_in(segs: Seq<SegView>, i: int) -> Option<Seq<Seq<char>>>
    decreases segs.len() - i,
{
    if i < 0 || i >= segs.len() {
        None
    } else {
        match segs[i] {
            SegView::Cwd(p) => Some(p),
            _ => first_cwd_in(segs, i + 1),
        }
    }
}

/// The pieces of the first working-directory segment of `lines[i..]`.
pub open spec fn first_cwd(lines: Seq<Seq<SegView>>, i: int) -> Option<Seq<Seq<char>>>
    decreases lines.len() - i,
{
    if i < 0 || i >= lines.len() {
        None
    } else {
        match first_cwd_in(lines[i], 0) {
            Some(p) => Some(p),
            None => first_cwd(lines, i + 1),
        }
    }
}

/// The selectable pieces among `pieces[0..m]`: all but the `/` separators,
/// a leading `/` (the root) counting.
pub open spec fn display_count(pieces: Seq<Seq<char>>, m: int) -> nat
    decreases m,
{
    if m <= 0 {
        0
    } else {
        display_count(pieces, m - 1) + if pieces[m - 1] != seq!['/'] || m - 1 == 0 {
            1nat
        } else {
            0nat
        }
    }
}

/// The number of selectable directory pieces in the first working-directory
/// segment of a prompt, 0 when there is none.
pub fn cwd_display_segment_count(prompt: &Vec<Vec<PromptSegment>>) -> (n: usize)
    ensures
        n == match first_cwd(prompt@.map_values(|l: Vec<PromptSegment>| seg_views(l@)), 0) {
            Some(p) => display_count(p, p.len() as int),
            None => 0,
        },
{
    let ghost lines = prompt@.map_values(|l: Vec<PromptSegment>| seg_views(l@));
    let mut i: usize = 0;
    while i < prompt.len()
        invariant
            i <= prompt.len(),
            lines == prompt@.map_values(|l: Vec<PromptSegment>| seg_views(l@)),
            first_cwd(lines, i as int) == first_cwd(lines, 0),
        decreases prompt.len() - i,
    {
        let line = &prompt[i];
        assert(lines[i as int] == seg_views(line@));
        let mut k: usize = 0;
        while k < line.len()
            invariant
                k <= line.len(),
                i < prompt.len(),
                line == &prompt[i as int],
                lines == prompt@.map_values(|l: Vec<PromptSegment>| seg_views(l@)),
                lines[i as int] == seg_views(line@),
                first_cwd_in(lines[i as int], k as int) == first_cwd_in(lines[i as int], 0),
                first_cwd(lines, i as int) == first_cwd(lines, 0),
            decreases line.len() - k,
        {
            assert(lines[i as int][k as int] == line@[k as int]@);
            match &line[k] {
                PromptSegment::Cwd(pieces) => {
                    let ghost p = pieces@.map_values(|x: String| x@);
                    let mut count: usize = 0;
                    let mut j: usize = 0;
                    while j < pieces.len()
                        invariant
                            j <= pieces.len(),
                            p == pieces@.map_values(|x: String| x@),
                            count == display_count(p, j as int),
                            count <= j,
                        decreases pieces.len() - j,
                    {
                        let c = chars_of(pieces[j].as_str());
                        let mut slash: Vec<char> = Vec::new();
                        slash.push('/');
                        assert(slash@ =~= seq!['/']);
                        if j == 0 || !crate::text_buffer::same_chars_pub(&c, &slash) {
                            count = count + 1;
                        }
                        j = j + 1;
                    }
                    return count;
                },
                _ => {},
            }
            k = k + 1;
        }
        i = i + 1;
    }
    0
}

/// Whether piece `i` of a working-directory segment can be clicked: every
/// piece but the `/` separators, the first piece (a root `/`) included.
pub open spec fn piece_selectable(pieces: Seq<Seq<char>>, i: int) -> bool {
    pieces[i] != seq!['/'] || i == 0
}

/// The number of selectable pieces before `m` grows with `m`.
proof fn lemma_display_count_mono(pieces: Seq<Seq<char>>, i: int, m: int)
    requires
        0 <= i <= m <= pieces.len(),
    ensures
        display_count(pieces, i) <= display_count(pieces, m),
        i < m && piece_selectable(pieces, i) ==> display_count(pieces, i) < display_count(pieces, m),
    decreases m - i,
{
    if i < m {
        lemma_display_count_mono(pieces, i, m - 1);
        if piece_selectable(pieces, i) && i == m - 1 {
            assert(display_count(pieces, m) == display_count(pieces, m - 1) + 1);
        }
    }
}

/// The prompt tags of the pieces of a working-directory segment: each
/// selectable piece gets its distance from the rightmost selectable piece
/// (so the current directory is 0 and its parent 1); separators get none.
pub fn cwd_piece_tags(pieces: &Vec<String>) -> (r: Vec<Option<usize>>)
    ensures
        r.len() == pieces.len(),
        forall|i: int| 0 <= i < r.len() ==> #[trigger] r@[i] == if piece_selectable(pieces@.map_values(|x: String| x@), i) {
            Some((display_count(pieces@.map_values(|x: String| x@), pieces.len() as int) - 1 - display_count(pieces@.map_values(|x: String| x@), i)) as usize)
        } else {
            None
        },
{
    let ghost p = pieces@.map_values(|x: String| x@);
    let mut slash: Vec<char> = Vec::new();
    slash.push('/');
    assert(slash@ =~= seq!['/']);
    let mut count: usize = 0;
    let mut j: usize = 0;
    while j < pieces.len()
        invariant
            j <= pieces.len(),
            p == pieces@.map_values(|x: String| x@),
            slash@ == seq!['/'],
            count == display_count(p, j as int),
            count <= j,
        decreases pieces.len() - j,
    {
        let c = chars_of(pieces[j].as_str());
        if j == 0 || !crate::text_buffer::same_chars_pub(&c, &slash) {
            count = count + 1;
        }
        j = j + 1;
    }
    let mut r: Vec<Option<usize>> = Vec::new();
    let mut sel: usize = 0;
    let mut i: usize = 0;
    while i < pieces.len()
        invariant
            i <= pieces.len(),
            p == pieces@.map_values(|x: String| x@),
            slash@ == seq!['/'],
            count == display_count(p, pieces.len() as int),
            sel == display_count(p, i as int),
            r.len() == i,
            forall|k: int| 0 <= k < i ==> #[trigger] r@[k] == if piece_selectable(p, k) {
                Some((display_count(p, pieces.len() as int) - 1 - display_count(p, k)) as usize)
            } else {
                None
            },
        decreases pieces.len() - i,
    {
        proof {
            lemma_display_count_mono(p, i as int, pieces.len() as int);
        }
        let c = chars_of(pieces[i].as_str());
        if i == 0 || !crate::text_buffer::same_chars_pub(&c, &slash) {
            r.push(Some(count - 1 - sel));
            sel = sel + 1;
        } else {
            r.push(None);
        }
        i = i + 1;
    }
    r
}

/// The fields that name directories: not empty and not `.`.
pub open spec fn dir_names(fs: Seq<Seq<char>>) -> Seq<Seq<char>>
    decreases fs.len(),
{
    if fs.len() == 0 {
        fs
    } else {
        let rest = dir_names(fs.drop_last());
        if fs.last().len() > 0 && fs.last() != seq!['.'] {
            rest.push(fs.last())
        } else {
            rest
        }
    }
}

/// The components of a Unix path, as `std::path::Path::components` gives
/// them: `/` for a root, a `.` only at the start of a relative path, then
/// the directory names (empty fields and other `.` fields dropped).
pub open spec fn path_components(s: Seq<char>) -> Seq<Seq<char>> {
    let f = char_fields(s, 0, '/');
    if s.len() > 0 && s[0] == '/' {
        seq![seq!['/']] + dir_names(f.drop_first())
    } else if f.len() > 0 && f[0] == seq!['.'] {
        seq![seq!['.']] + dir_names(f.drop_first())
    } else {
        dir_names(f)
    }
}

/// Components joined by slashes.
pub open spec fn join_slashes(cs: Seq<Seq<char>>) -> Seq<char>
    decreases cs.len(),
{
    if cs.len() == 0 {
        Seq::empty()
    } else if cs.len() == 1 {
        cs[0]
    } else {
        cs[0] + seq!['/'] + join_slashes(cs.drop_first())
    }
}

/// The path made of components, as a `PathBuf` collects them: a root is
/// followed directly by the next name.
pub open spec fn path_of(cs: Seq<Seq<char>>) -> Seq<char> {
    if cs.len() > 0 && cs[0] == seq!['/'] {
        seq!['/'] + join_slashes(cs.drop_first())
    } else {
        join_slashes(cs)
    }
}

/// The directory `index` levels above the working directory `cwd` (0 being
/// `cwd` itself), stopping at the first component; `None` without a
/// working directory.
pub open spec fn cwd_path_spec(cwd: Seq<char>, index: nat) -> Option<Seq<char>> {
    let cs = path_components(cwd);
    if cwd.len() == 0 || cs.len() == 0 {
        None
    } else if cs.len() <= index {
        Some(path_of(cs.take(1)))
    } else {
        Some(path_of(cs.take(cs.len() - index)))
    }
}

/// Whether a field names a directory.
fn is_dir_name(f: &Vec<char>) -> (b: bool)
    ensures
        b == (f@.len() > 0 && f@ != seq!['.']),
{
    if f.len() == 0 {
        return false;
    }
    if f.len() == 1 && f[0] == '.' {
        assert(f@ =~= seq!['.']);
        return false;
    }
    assert(f@.len() != 1 || f@[0] != '.');
    true
}

/// The components of the path `v` (see `path_components`).
fn path_components_exec(v: &Vec<char>) -> (r: Vec<Vec<char>>)
    ensures
        r@.map_values(|x: Vec<char>| x@) == path_components(v@),
{
    let fields = char_fields_exec(v, '/');
    let ghost fs = fields@.map_values(|x: Vec<char>| x@);
    let mut out: Vec<Vec<char>> = Vec::new();
    let mut start: usize = 0;
    if v.len() > 0 && v[0] == '/' {
        let mut root: Vec<char> = Vec::new();
        root.push('/');
        out.push(root);
        start = 1;
    } else if fields.len() > 0 && fields[0].len() == 1 && fields[0][0] == '.' {
        let mut dot: Vec<char> = Vec::new();
        dot.push('.');
        out.push(dot);
        start = 1;
    }
    let ghost head = out@.map_values(|x: Vec<char>| x@);
    proof {
        if v@.len() > 0 && v@[0] == '/' {
            assert(head =~= seq![seq!['/']]);
        } else if fs.len() > 0 && fs[0] == seq!['.'] {
            assert(head =~= seq![seq!['.']]);
        } else {
            if fs.len() > 0 && fs[0].len() == 1 && fs[0][0] == '.' {
                assert(fs[0] =~= seq!['.']);
            }
            assert(fs.len() > 0 ==> fs[0] == fields@[0]@);
            assert(head =~= Seq::<Seq<char>>::empty());
        }
        if start == 1 && !(v@.len() > 0 && v@[0] == '/') {
            assert(fs[0] =~= seq!['.']);
        }
        if start == 0 && fs.len() > 0 {
            assert(fs[0] != seq!['.'] || (v@.len() > 0 && v@[0] == '/'));
        }
        crate::text_buffer::lemma_run_fwd_ge(v@, 0, not_slash_p());
    }
    let ghost tail = fs.skip(start as int);
    let mut i = start;
    while i < fields.len()
        invariant
            start <= i <= fields.len(),
            start <= 1,
            start == 1 ==> fields.len() >= 1,
            fs == fields@.map_values(|x: Vec<char>| x@),
            out@.map_values(|x: Vec<char>| x@) == head + dir_names(fs.subrange(start as int, i as int)),
        decreases fields.len() - i,
    {
        let ghost before = out@.map_values(|x: Vec<char>| x@);
        assert(fs.subrange(start as int, i + 1).drop_last() =~= fs.subrange(start as int, i as int));
        assert(fs[i as int] == fields@[i as int]@);
        if is_dir_name(&fields[i]) {
            out.push(slice_chars(&fields[i], 0, fields[i].len()));
            assert(fields@[i as int]@.subrange(0, fields@[i as int]@.len() as int) =~= fields@[i as int]@);
            assert(out@.map_values(|x: Vec<char>| x@) =~= before.push(fs[i as int]));
        }
        i = i + 1;
    }
    proof {
        if start == 1 {
            assert(fs.subrange(1, fs.len() as int) =~= fs.drop_first());
        } else {
            assert(fs.subrange(0, fs.len() as int) =~= fs);
        }
        if !(v@.len() > 0 && v@[0] == '/') && fs.len() > 0 && fs[0] == seq!['.'] {
            assert(fields@[0]@ =~= seq!['.']);
        }
    }
    out
}

/// Components joined by slashes (see `join_slashes`), from `i` on.
fn join_slashes_exec(cs: &Vec<Vec<char>>, i: usize, k: usize) -> (r: Vec<char>)
    requires
        i <= k <= cs.len(),
    ensures
        r@ == join_slashes(cs@.map_values(|x: Vec<char>| x@).subrange(i as int, k as int)),
    decreases k - i,
{
    let ghost s = cs@.map_values(|x: Vec<char>| x@).subrange(i as int, k as int);
    if i == k {
        return Vec::new();
    }
    assert(s[0] == cs@[i as int]@);
    if i + 1 == k {
        return slice_chars(&cs[i], 0, cs[i].len());
    }
    let mut r = slice_chars(&cs[i], 0, cs[i].len());
    r.push('/');
    let rest = join_slashes_exec(cs, i + 1, k);
    append_chars(&mut r, &rest);
    assert(s.drop_first() =~= cs@.map_values(|x: Vec<char>| x@).subrange(i + 1, k as int));
    assert(cs@[i as int]@.subrange(0, cs@[i as int]@.len() as int) =~= cs@[i as int]@);
    r
}

/// The path made of the first `k` components (see `path_of`).
fn path_of_exec(cs: &Vec<Vec<char>>, k: usize) -> (r: String)
    requires
        k <= cs.len(),
    ensures
        r@ == path_of(cs@.map_values(|x: Vec<char>| x@).take(k as int)),
{
    let ghost t = cs@.map_values(|x: Vec<char>| x@).take(k as int);
    assert(t =~= cs@.map_values(|x: Vec<char>| x@).subrange(0, k as int));
    if k > 0 && cs[0].len() == 1 && cs[0][0] == '/' {
        assert(t[0] =~= seq!['/']);
        let mut r: Vec<char> = Vec::new();
        r.push('/');
        let rest = join_slashes_exec(cs, 1, k);
        append_chars(&mut r, &rest);
        assert(t.drop_first() =~= cs@.map_values(|x: Vec<char>| x@).subrange(1, k as int));
        assert(r@ =~= seq!['/'] + join_slashes(t.drop_first()));
        string_of(&r)
    } else {
        proof {
            if k > 0 {
                assert(t[0] == cs@[0]@);
                assert(cs@[0]@ != seq!['/'] ==> t[0] != seq!['/']);
                if cs@[0]@.len() == 1 {
                    assert(cs@[0]@[0] != '/' ==> cs@[0]@ != seq!['/']);
                }
            }
        }
        string_of(&join_slashes_exec(cs, 0, k))
    }
}

/// The path `index` levels above the working directory `cwd` (see
/// `cwd_path_spec`).
pub fn cwd_path_for_index(cwd: &str, index: usize) -> (r: Option<String>)
    ensures
        match (r, cwd_path_spec(cwd@, index as nat)) {
            (Some(x), Some(y)) => x@ == y,
            (None, None) => true,
            _ => false,
        },
{
    let v = chars_of(cwd);
    if v.len() == 0 {
        return None;
    }
    let cs = path_components_exec(&v);
    if cs.len() == 0 {
        return None;
    }
    let keep = cs.len().saturating_sub(index);
    if keep == 0 {
        Some(path_of_exec(&cs, 1))
    } else {
        Some(path_of_exec(&cs, keep))
    }
}

/// An animation of the prompt: its frames, each a list of styled spans,
/// played at `frame_ms` milliseconds a frame (`None` when its rate is not
/// positive, which shows the first frame only), wrapping around or, with
/// `ping_pong`, bouncing between the ends.
#[derive(Debug, Clone)]
pub struct ProcessedAnimation {
    pub name: String,
    pub frame_ms: Option<i64>,
    pub frames: Vec<Vec<StyledSpan>>,
    pub ping_pong: bool,
}

/// `a / b` rounded toward zero, for `b > 0`.
pub open spec fn div_trunc(a: int, b: int) -> int {
    if a >= 0 {
        a / b
    } else {
        -((-a) / b)
    }
}

/// The frame shown at time `now_ms` among `n` frames: none without
/// frames; the first when the rate is not positive; otherwise the tick (the
/// time over the frame length, rounded toward zero, as a `usize`; 0 for a
/// frame length that is not positive) taken round the frames, or with
/// ping-pong over a period of `2 * (n - 1)` ticks forward then back.
pub open spec fn frame_at(n: int, frame_ms: Option<i64>, ping_pong: bool, now_ms: i64) -> Option<int> {
    if n == 0 {
        None
    } else {
        match frame_ms {
            None => Some(0),
            Some(d) => {
                let tick = if d > 0 { (div_trunc(now_ms as int, d as int) as i64) as usize as int } else { 0 };
                if ping_pong && n > 1 {
                    let period = 2 * (n - 1);
                    let pos = tick % period;
                    Some(if pos < n { pos } else { period - pos })
                } else {
                    Some(tick % n)
                }
            },
        }
    }
}

impl ProcessedAnimation {
    /// Lay every frame span's style over `style` (the frame's own settings
    /// win).
    pub fn patch_style(self, style: TextStyle) -> (r: ProcessedAnimation)
        ensures
            r.name == self.name,
            r.frame_ms == self.frame_ms,
            r.ping_pong == self.ping_pong,
            r.frames.len() == self.frames.len(),
            forall|i: int|
                0 <= i < r.frames.len() ==> spans_view((#[trigger] r.frames@[i])@) == spans_view(self.frames@[i]@).map_values(
                    |s: (Seq<char>, TextStyle)| (s.0, patched(style, s.1)),
                ),
    {
        let mut frames: Vec<Vec<StyledSpan>> = Vec::new();
        let mut i: usize = 0;
        while i < self.frames.len()
            invariant
                i <= self.frames.len(),
                frames.len() == i,
                forall|j: int|
                    0 <= j < i ==> spans_view((#[trigger] frames@[j])@) == spans_view(self.frames@[j]@).map_values(
                        |s: (Seq<char>, TextStyle)| (s.0, patched(style, s.1)),
                    ),
            decreases self.frames.len() - i,
        {
            let frame = &self.frames[i];
            let mut out: Vec<StyledSpan> = Vec::new();
            let mut k: usize = 0;
            while k < frame.len()
                invariant
                    k <= frame.len(),
                    spans_view(out@) == spans_view(frame@.take(k as int)).map_values(
                        |s: (Seq<char>, TextStyle)| (s.0, patched(style, s.1)),
                    ),
                decreases frame.len() - k,
            {
                let ghost before = spans_view(out@);
                out.push(StyledSpan { content: frame[k].content.clone(), style: style.patch(frame[k].style) });
                assert(spans_view(out@) =~= before.push((frame@[k as int].content@, patched(style, frame@[k as int].style))));
                assert(spans_view(frame@.take(k + 1)) =~= spans_view(frame@.take(k as int)).push(
                    (frame@[k as int].content@, frame@[k as int].style),
                ));
                k = k + 1;
            }
            assert(frame@.take(frame.len() as int) =~= frame@);
            frames.push(out);
            i = i + 1;
        }
        ProcessedAnimation { name: self.name, frame_ms: self.frame_ms, frames, ping_pong: self.ping_pong }
    }

    /// Which frame is shown at `now_ms` (see `frame_at`).
    pub fn frame_index(&self, now_ms: i64) -> (r: Option<usize>)
        requires
            self.frames.len() <= usize::MAX / 2,
        ensures
            r matches Some(i) ==> i < self.frames.len(),
            match r {
                Some(i) => frame_at(self.frames.len() as int, self.frame_ms, self.ping_pong, now_ms) == Some(i as int),
                None => frame_at(self.frames.len() as int, self.frame_ms, self.ping_pong, now_ms) is None,
            },
    {
        let n = self.frames.len();
        if n == 0 {
            return None;
        }
        match self.frame_ms {
            None => Some(0),
            Some(d) => {
                let tick: usize = if d > 0 {
                    let m = now_ms as i128;
                    let q: i128 = if m >= 0 { m / (d as i128) } else { -((-m) / (d as i128)) };
                    assert(q == div_trunc(now_ms as int, d as int));
                    assert(i64::MIN <= q <= i64::MAX) by (nonlinear_arith)
                        requires
                            q == div_trunc(m as int, d as int),
                            d > 0,
                            i64::MIN <= m <= i64::MAX,
                    {
                    }
                    (q as i64) as usize
                } else {
                    0
                };
                if self.ping_pong && n > 1 {
                    let period = 2 * (n - 1);
                    let pos = tick % period;
                    Some(if pos < n { pos } else { period - pos })
                } else {
                    Some(tick % n)
                }
            },
        }
    }

    /// The spans of the frame shown at `now_ms` (none without frames).
    pub fn get_frame_spans(&self, now_ms: i64) -> (r: Vec<StyledSpan>)
        requires
            self.frames.len() <= usize::MAX / 2,
        ensures
            match frame_at(self.frames.len() as int, self.frame_ms, self.ping_pong, now_ms) {
                Some(i) => spans_view(r@) == spans_view(self.frames@[i]@),
                None => r.len() == 0,
            },
    {
        let mut out: Vec<StyledSpan> = Vec::new();
        match self.frame_index(now_ms) {
            Some(i) => {
                crate::content_utils::extend_spans(&mut out, &self.frames[i]);
                assert(Seq::<(Seq<char>, TextStyle)>::empty() + spans_view(self.frames@[i as int]@) =~= spans_view(
                    self.frames@[i as int]@,
                ));
            },
            None => {},
        }
        out
    }
}

/// What a custom widget command that failed left behind: its exit code
/// when it ran, and its output.
#[derive(Debug, Clone)]
pub struct WidgetFailure {
    pub exit_code: Option<i32>,
    pub stdout: String,
    pub stderr: String,
}

/// Decimal text of a signed number.
pub open spec fn signed_decimal(n: int) -> Seq<char> {
    if n < 0 {
        seq!['-'] + decimal((-n) as nat)
    } else {
        decimal(n as nat)
    }
}

/// The style of a failed widget's label: red, bold and slowly blinking.
pub open spec fn failure_style() -> TextStyle {
    crate::style::with_modifier(
        TextStyle { fg: Some(Colour::Red), ..crate::style::plain_style() },
        crate::style::BOLD | crate::style::SLOW_BLINK,
    )
}

impl WidgetFailure {
    /// The prompt text standing for the failure: `command failed (exit N)`
    /// when there is an exit code, else `command failed`, in the failure
    /// style, tagged as prompt text.
    pub fn to_error_spans(&self) -> (r: Vec<TaggedSpan>)
        ensures
            r.len() == 1,
            r@[0].span.style == failure_style(),
            r@[0].tag == SpanTag::Constant(Tag::Ps1Prompt),
            r@[0].span.content@ == match self.exit_code {
                Some(code) => "command failed (exit "@ + signed_decimal(code as int) + seq![')'],
                None => "command failed"@,
            },
    {
        let style = TextStyle::new().fg(Colour::Red).add_modifier(crate::style::BOLD | crate::style::SLOW_BLINK);
        let mut label = chars_of("command failed");
        if let Some(code) = self.exit_code {
            label = chars_of("command failed (exit ");
            if code < 0 {
                label.push('-');
                let wide: i64 = code as i64;
                let mag: u64 = (0 - wide) as u64;
                append_chars(&mut label, &decimal_chars(mag));
            } else {
                append_chars(&mut label, &decimal_chars(code as u64));
            }
            label.push(')');
            proof {
                if code < 0 {
                    assert(label@ =~= "command failed (exit "@ + signed_decimal(code as int) + seq![')']);
                } else {
                    assert(label@ =~= "command failed (exit "@ + signed_decimal(code as int) + seq![')']);
                }
            }
        }
        let mut r: Vec<TaggedSpan> = Vec::new();
        r.push(TaggedSpan::new(StyledSpan { content: string_of(&label), style }, Tag::Ps1Prompt));
        r
    }
}

/// What a custom prompt widget shows: its placeholder while the command
/// runs, its output once it is done, or the failure.
#[derive(Debug, Clone)]
pub enum WidgetOutput {
    Pending(Vec<TaggedSpan>),
    Done(Vec<TaggedSpan>),
    Failed(WidgetFailure),
}

/// How a custom widget's command stood when the caller stopped waiting
/// for it.
pub enum WidgetPoll {
    /// It exited: whether successfully, its exit code when it has one, its
    /// output already expanded into prompt spans, its raw output and its
    /// raw error output.
    Exited { success: bool, exit_code: Option<i32>, output_spans: Vec<TaggedSpan>, stdout: String, stderr: String },
    /// It was still running when the wait ran out.
    Running,
    /// Asking whether it had exited failed, with this message.
    WaitError(String),
}

/// How long to wait for a custom widget's command before showing its
/// placeholder: the widget's `block` milliseconds, 0 when it has none.
pub fn widget_wait_ms(block: Option<i32>) -> (r: u64)
    ensures
        r == match block {
            Some(ms) => ms as u64,
            None => 0,
        },
{
    match block {
        Some(ms) => ms as u64,
        None => 0,
    }
}

/// What a custom widget shows after the wait: its output spans when the
/// command exited successfully; the failure (exit code, output, error
/// output without surrounding whitespace) when it exited otherwise; the
/// placeholder while it still runs; a failure with no exit code and the
/// message as error output when waiting on it failed.
pub fn widget_state_after_poll(poll: WidgetPoll, placeholder: Vec<TaggedSpan>) -> (r: WidgetOutput)
    ensures
        match poll {
            WidgetPoll::Exited { success, exit_code, output_spans, stdout, stderr } => if success {
                r == WidgetOutput::Done(output_spans)
            } else {
                r matches WidgetOutput::Failed(f) && f.exit_code == exit_code && f.stdout@ == stdout@ && f.stderr@
                    == trim(stderr@)
            },
            WidgetPoll::Running => r == WidgetOutput::Pending(placeholder),
            WidgetPoll::WaitError(e) => r matches WidgetOutput::Failed(f) && f.exit_code is None && f.stdout@.len() == 0
                && f.stderr@ == e@,
        },
{
    match poll {
        WidgetPoll::Exited { success, exit_code, output_spans, stdout, stderr } => {
            if success {
                WidgetOutput::Done(output_spans)
            } else {
                let t = trim_exec(&chars_of(stderr.as_str()));
                WidgetOutput::Failed(WidgetFailure { exit_code, stdout, stderr: string_of(&t) })
            }
        },
        WidgetPoll::Running => WidgetOutput::Pending(placeholder),
        WidgetPoll::WaitError(e) => WidgetOutput::Failed(WidgetFailure { exit_code: None, stdout: String::new(), stderr: e }),
    }
}

/// A segment of a prompt line ready to be drawn.
#[derive(Debug, Clone)]
pub enum RenderSegment {
    /// Text with nothing left to fill in.
    Static(StyledSpan),
    /// A time, formatted when drawn with the `strftime` format.
    DynamicTime { strftime: String, style: TextStyle },
    /// An animation; the frame for the time is drawn.
    Animation(ProcessedAnimation),
    /// The working directory, one span per path piece.
    Cwd(Vec<StyledSpan>),
    /// The mouse-mode widget: one text with mouse capture on, another off.
    WidgetMouseMode { enabled_text: Vec<TaggedSpan>, disabled_text: Vec<TaggedSpan> },
    /// The copy-buffer widget.
    WidgetCopyBuffer { text: Vec<TaggedSpan> },
    /// The time since the last command, formatted when the prompt was read.
    WidgetLastCommandDuration { text: String, base_style: TextStyle },
    /// A custom command widget in the style of the text around it.
    WidgetCustom { state: WidgetOutput, base_style: TextStyle },
}

/// A span tag as plain values: whether it is constant, and its tags.
pub open spec fn span_tag_view(t: SpanTag) -> (bool, Seq<Tag>) {
    match t {
        SpanTag::Constant(x) => (true, seq![x]),
        SpanTag::PerGrapheme(v) => (false, v@),
    }
}

/// A tagged span as plain values.
pub type TaggedView = (Seq<char>, TextStyle, (bool, Seq<Tag>));

pub open spec fn tagged_view(t: TaggedSpan) -> TaggedView {
    (t.span.content@, t.span.style, span_tag_view(t.tag))
}

pub open spec fn tagged_views(v: Seq<TaggedSpan>) -> Seq<TaggedView> {
    v.map_values(|t: TaggedSpan| tagged_view(t))
}

/// A tag for every grapheme.
pub open spec fn constant(t: Tag) -> (bool, Seq<Tag>) {
    (true, seq![t])
}

/// The label of a failed widget.
pub open spec fn failure_label(exit_code: Option<i32>) -> Seq<char> {
    match exit_code {
        Some(code) => "command failed (exit "@ + signed_decimal(code as int) + seq![')'],
        None => "command failed"@,
    }
}

/// The tag of piece `i` of a working-directory segment.
pub open spec fn cwd_tag(pieces: Seq<Seq<char>>, i: int) -> Tag {
    if piece_selectable(pieces, i) {
        Tag::Ps1PromptCwdWidget((display_count(pieces, pieces.len() as int) - 1 - display_count(pieces, i)) as usize)
    } else {
        Tag::Ps1Prompt
    }
}

/// The tagged spans a segment is drawn as, given the text of its time (for
/// a time segment), the time in milliseconds and whether mouse capture is
/// on: static text and the last-command time as prompt text; each
/// working-directory piece tagged by `cwd_tag`; the time text in the
/// segment's style; the animation frame for the time; the mouse widget's
/// text for the capture state; the copy widget's text; a custom widget's
/// placeholder, output or failure text with its styles laid over the
/// widget's base style.
pub open spec fn segment_out(seg: RenderSegment, time_text: Seq<char>, now_ms: i64, mouse: bool) -> Seq<TaggedView> {
    match seg {
        RenderSegment::Static(s) => seq![(s.content@, s.style, constant(Tag::Ps1Prompt))],
        RenderSegment::DynamicTime { strftime, style } => seq![(time_text, style, constant(Tag::Ps1PromptDynamicTime))],
        RenderSegment::Animation(a) => match frame_at(a.frames.len() as int, a.frame_ms, a.ping_pong, now_ms) {
            Some(i) => spans_view(a.frames@[i]@).map_values(
                |s: (Seq<char>, TextStyle)| (s.0, s.1, constant(Tag::Ps1PromptAnimation)),
            ),
            None => Seq::empty(),
        },
        RenderSegment::Cwd(spans) => {
            let p = spans@.map_values(|s: StyledSpan| s.content@);
            Seq::new(spans.len() as nat, |i: int| (spans@[i].content@, spans@[i].style, constant(cwd_tag(p, i))))
        },
        RenderSegment::WidgetMouseMode { enabled_text, disabled_text } => if mouse {
            tagged_views(enabled_text@)
        } else {
            tagged_views(disabled_text@)
        },
        RenderSegment::WidgetCopyBuffer { text } => tagged_views(text@),
        RenderSegment::WidgetLastCommandDuration { text, base_style } => seq![(text@, base_style, constant(Tag::Ps1Prompt))],
        RenderSegment::WidgetCustom { state, base_style } => {
            let raw = match state {
                WidgetOutput::Pending(p) => tagged_views(p@),
                WidgetOutput::Done(d) => tagged_views(d@),
                WidgetOutput::Failed(f) => seq![(failure_label(f.exit_code), failure_style(), constant(Tag::Ps1Prompt))],
            };
            raw.map_values(|t: TaggedView| (t.0, patched(base_style, t.1), t.2))
        },
    }
}

/// The number of time segments among `segs`.
pub open spec fn time_count(segs: Seq<RenderSegment>) -> int
    decreases segs.len(),
{
    if segs.len() == 0 {
        0
    } else {
        time_count(segs.drop_last()) + if segs.last() is DynamicTime { 1int } else { 0int }
    }
}

/// The tagged spans of a prompt line: the segments drawn one after
/// another, the `k`-th time segment with `times[k]`.
pub open spec fn prompt_line(segs: Seq<RenderSegment>, times: Seq<Seq<char>>, now_ms: i64, mouse: bool) -> Seq<TaggedView>
    decreases segs.len(),
{
    if segs.len() == 0 {
        Seq::empty()
    } else {
        let k = time_count(segs.drop_last());
        prompt_line(segs.drop_last(), times, now_ms, mouse) + segment_out(
            segs.last(),
            if segs.last() is DynamicTime { times[k] } else { Seq::empty() },
            now_ms,
            mouse,
        )
    }
}

/// Whether every animation among `segs` has a frame count that the frame
/// arithmetic can take.
pub open spec fn animations_ok(segs: Seq<RenderSegment>) -> bool {
    forall|i: int| 0 <= i < segs.len() ==> (#[trigger] segs[i] matches RenderSegment::Animation(a) ==> a.frames.len() <= usize::MAX / 2)
}

fn copy_span_tag(t: &SpanTag) -> (r: SpanTag)
    ensures
        span_tag_view(r) == span_tag_view(*t),
{
    match t {
        SpanTag::Constant(x) => SpanTag::Constant(*x),
        SpanTag::PerGrapheme(v) => {
            let mut w: Vec<Tag> = Vec::new();
            let mut i: usize = 0;
            while i < v.len()
                invariant
                    i <= v.len(),
                    w@ == v@.take(i as int),
                decreases v.len() - i,
            {
                w.push(v[i]);
                assert(w@ =~= v@.take(i + 1));
                i = i + 1;
            }
            assert(v@.take(v.len() as int) =~= v@);
            SpanTag::PerGrapheme(w)
        },
    }
}

/// Append copies of `src` to `out`, with `base` laid under each style when
/// given.
fn push_tagged(out: &mut Vec<TaggedSpan>, src: &Vec<TaggedSpan>, base: Option<TextStyle>)
    ensures
        tagged_views(final(out)@) == tagged_views(old(out)@) + match base {
            Some(b) => tagged_views(src@).map_values(|t: TaggedView| (t.0, patched(b, t.1), t.2)),
            None => tagged_views(src@),
        },
{
    let ghost start = tagged_views(out@);
    let ghost want = match base {
        Some(b) => tagged_views(src@).map_values(|t: TaggedView| (t.0, patched(b, t.1), t.2)),
        None => tagged_views(src@),
    };
    let mut i: usize = 0;
    while i < src.len()
        invariant
            i <= src.len(),
            want.len() == src.len(),
            want == match base {
                Some(b) => tagged_views(src@).map_values(|t: TaggedView| (t.0, patched(b, t.1), t.2)),
                None => tagged_views(src@),
            },
            tagged_views(out@) == start + want.take(i as int),
        decreases src.len() - i,
    {
        let s = &src[i];
        let style = match base {
            Some(b) => b.patch(s.span.style),
            None => s.span.style,
        };
        let t = TaggedSpan { span: StyledSpan { content: s.span.content.clone(), style }, tag: copy_span_tag(&s.tag) };
        let ghost before = tagged_views(out@);
        out.push(t);
        assert(tagged_views(out@) =~= before.push(tagged_view(t)));
        assert(want.take(i + 1) =~= want.take(i as int).push(want[i as int]));
        i = i + 1;
    }
    assert(want.take(src.len() as int) =~= want);
}

/// The spans a copy-buffer widget shows inside a prompt span styled `base`:
/// each of `spans` with its own style laid over `base`, its text and tags
/// kept.
pub fn inherit_base_style(spans: &Vec<TaggedSpan>, base: TextStyle) -> (r: Vec<TaggedSpan>)
    ensures
        tagged_views(r@) == tagged_views(spans@).map_values(|t: TaggedView| (t.0, patched(base, t.1), t.2)),
{
    let mut out: Vec<TaggedSpan> = Vec::new();
    push_tagged(&mut out, spans, Some(base));
    assert(tagged_views(Seq::<TaggedSpan>::empty()) =~= Seq::<TaggedView>::empty());
    assert(tagged_views(out@) =~= tagged_views(spans@).map_values(|t: TaggedView| (t.0, patched(base, t.1), t.2)));
    out
}

/// The placeholder shown while a custom widget's command runs: `n` spaces
/// as plain prompt text, or, for `Prev`, the output of the command's last
/// run (`prev_output`, empty before the first one).
pub fn resolve_placeholder(placeholder: &Placeholder, prev_output: &Vec<TaggedSpan>) -> (r: Vec<TaggedSpan>)
    ensures
        match placeholder {
            Placeholder::Spaces(n) => tagged_views(r@) == seq![
                (Seq::new(*n as nat, |i: int| ' '), plain_style(), constant(Tag::Ps1Prompt)),
            ],
            Placeholder::Prev => tagged_views(r@) == tagged_views(prev_output@),
        },
{
    match placeholder {
        Placeholder::Spaces(n) => {
            let mut text: Vec<char> = Vec::new();
            let mut i: usize = 0;
            while i < *n
                invariant
                    i <= *n,
                    text@ == Seq::new(i as nat, |j: int| ' '),
                decreases *n - i,
            {
                text.push(' ');
                i = i + 1;
                assert(text@ =~= Seq::new(i as nat, |j: int| ' '));
            }
            let span = TaggedSpan::new(StyledSpan { content: string_of(&text), style: TextStyle::new() }, Tag::Ps1Prompt);
            let r = vec![span];
            assert(tagged_views(r@) =~= seq![(Seq::new(*n as nat, |i: int| ' '), plain_style(), constant(Tag::Ps1Prompt))]);
            r
        },
        Placeholder::Prev => {
            let mut out: Vec<TaggedSpan> = Vec::new();
            push_tagged(&mut out, prev_output, None);
            assert(tagged_views(Seq::<TaggedSpan>::empty()) =~= Seq::<TaggedView>::empty());
            assert(tagged_views(out@) =~= tagged_views(prev_output@));
            out
        },
    }
}

/// Draw a prompt line: each segment becomes tagged spans (see
/// `segment_out`), the `k`-th time segment showing `time_texts[k]`, the
/// time for animations being `now_ms` and the mouse widget following
/// `mouse_enabled`. See `prompt_line`.
pub fn format_prompt_line(segments: &Vec<RenderSegment>, now_ms: i64, time_texts: &Vec<String>, mouse_enabled: bool) -> (r: TaggedLine)
    requires
        animations_ok(segments@),
        time_texts.len() == time_count(segments@),
    ensures
        tagged_views(r.spans@) == prompt_line(segments@, time_texts@.map_values(|t: String| t@), now_ms, mouse_enabled),
{
    let ghost times = time_texts@.map_values(|t: String| t@);
    let mut out: Vec<TaggedSpan> = Vec::new();
    let mut k: usize = 0;
    let mut i: usize = 0;
    assert(segments@.take(0) =~= Seq::<RenderSegment>::empty());
    while i < segments.len()
        invariant
            i <= segments.len(),
            animations_ok(segments@),
            time_texts.len() == time_count(segments@),
            times == time_texts@.map_values(|t: String| t@),
            k == time_count(segments@.take(i as int)),
            tagged_views(out@) == prompt_line(segments@.take(i as int), times, now_ms, mouse_enabled),
        decreases segments.len() - i,
    {
        assert(segments@.take(i + 1).drop_last() =~= segments@.take(i as int));
        assert(segments@.take(i + 1).last() == segments@[i as int]);
        proof {
            lemma_time_count_prefix(segments@, i + 1);
        }
        let ghost before = tagged_views(out@);
        match &segments[i] {
            RenderSegment::Static(s) => {
                out.push(TaggedSpan::new(StyledSpan { content: s.content.clone(), style: s.style }, Tag::Ps1Prompt));
                assert(tagged_views(out@) =~= before + segment_out(segments@[i as int], Seq::empty(), now_ms, mouse_enabled));
            },
            RenderSegment::DynamicTime { strftime, style } => {
                assert(k < time_texts.len()) by {
                    lemma_time_count_prefix(segments@, i + 1);
                }
                out.push(TaggedSpan::new(StyledSpan { content: time_texts[k].clone(), style: *style }, Tag::Ps1PromptDynamicTime));
                assert(tagged_views(out@) =~= before + segment_out(segments@[i as int], times[k as int], now_ms, mouse_enabled));
                k = k + 1;
            },
            RenderSegment::Animation(a) => {
                assert(segments@[i as int] matches RenderSegment::Animation(b) ==> b.frames.len() <= usize::MAX / 2);
                let spans = a.get_frame_spans(now_ms);
                let mut j: usize = 0;
                while j < spans.len()
                    invariant
                        j <= spans.len(),
                        tagged_views(out@) == before + spans_view(spans@.take(j as int)).map_values(
                            |s: (Seq<char>, TextStyle)| (s.0, s.1, constant(Tag::Ps1PromptAnimation)),
                        ),
                    decreases spans.len() - j,
                {
                    let ghost b2 = tagged_views(out@);
                    out.push(TaggedSpan::new(StyledSpan { content: spans[j].content.clone(), style: spans[j].style }, Tag::Ps1PromptAnimation));
                    assert(tagged_views(out@) =~= b2.push((spans@[j as int].content@, spans@[j as int].style, constant(Tag::Ps1PromptAnimation))));
                    assert(spans_view(spans@.take(j + 1)).map_values(|s: (Seq<char>, TextStyle)| (s.0, s.1, constant(Tag::Ps1PromptAnimation)))
                        =~= spans_view(spans@.take(j as int)).map_values(|s: (Seq<char>, TextStyle)| (s.0, s.1, constant(Tag::Ps1PromptAnimation))).push(
                        (spans@[j as int].content@, spans@[j as int].style, constant(Tag::Ps1PromptAnimation)),
                    ));
                    j = j + 1;
                }
                assert(spans@.take(spans.len() as int) =~= spans@);
                proof {
                    match frame_at(a.frames.len() as int, a.frame_ms, a.ping_pong, now_ms) {
                        Some(fi) => {},
                        None => {
                            assert(spans_view(spans@) =~= Seq::<(Seq<char>, TextStyle)>::empty());
                        },
                    }
                }
                assert(tagged_views(out@) =~= before + segment_out(segments@[i as int], Seq::empty(), now_ms, mouse_enabled));
            },
            RenderSegment::Cwd(spans) => {
                let names = span_texts(spans);
                let tags = cwd_piece_tags(&names);
                let ghost p = spans@.map_values(|s: StyledSpan| s.content@);
                assert(names@.map_values(|x: String| x@) =~= p);
                let mut j: usize = 0;
                while j < spans.len()
                    invariant
                        j <= spans.len(),
                        tags.len() == spans.len(),
                        names@.map_values(|x: String| x@) == p,
                        p == spans@.map_values(|s: StyledSpan| s.content@),
                        forall|q: int| 0 <= q < tags.len() ==> #[trigger] tags@[q] == if piece_selectable(p, q) {
                            Some((display_count(p, spans.len() as int) - 1 - display_count(p, q)) as usize)
                        } else {
                            None
                        },
                        tagged_views(out@) == before + Seq::new(j as nat, |q: int| (spans@[q].content@, spans@[q].style, constant(cwd_tag(p, q)))),
                    decreases spans.len() - j,
                {
                    let tag = match tags[j] {
                        Some(n) => Tag::Ps1PromptCwdWidget(n),
                        None => Tag::Ps1Prompt,
                    };
                    assert(tag == cwd_tag(p, j as int));
                    let ghost b2 = tagged_views(out@);
                    out.push(TaggedSpan::new(StyledSpan { content: spans[j].content.clone(), style: spans[j].style }, tag));
                    assert(tagged_views(out@) =~= b2.push((spans@[j as int].content@, spans@[j as int].style, constant(tag))));
                    assert(tagged_views(out@) =~= before + Seq::new((j + 1) as nat, |q: int| (spans@[q].content@, spans@[q].style, constant(cwd_tag(p, q)))));
                    j = j + 1;
                }
                assert(tagged_views(out@) =~= before + segment_out(segments@[i as int], Seq::empty(), now_ms, mouse_enabled));
            },
            RenderSegment::WidgetMouseMode { enabled_text, disabled_text } => {
                if mouse_enabled {
                    push_tagged(&mut out, enabled_text, None);
                } else {
                    push_tagged(&mut out, disabled_text, None);
                }
            },
            RenderSegment::WidgetCopyBuffer { text } => {
                push_tagged(&mut out, text, None);
            },
            RenderSegment::WidgetLastCommandDuration { text, base_style } => {
                out.push(TaggedSpan::new(StyledSpan { content: text.clone(), style: *base_style }, Tag::Ps1Prompt));
                assert(tagged_views(out@) =~= before + segment_out(segments@[i as int], Seq::empty(), now_ms, mouse_enabled));
            },
            RenderSegment::WidgetCustom { state, base_style } => {
                match state {
                    WidgetOutput::Pending(p) => {
                        push_tagged(&mut out, p, Some(*base_style));
                    },
                    WidgetOutput::Done(d) => {
                        push_tagged(&mut out, d, Some(*base_style));
                    },
                    WidgetOutput::Failed(f) => {
                        let spans = f.to_error_spans();
                        push_tagged(&mut out, &spans, Some(*base_style));
                        assert(tagged_views(spans@) =~= seq![(failure_label(f.exit_code), failure_style(), constant(Tag::Ps1Prompt))]);
                    },
                }
            },
        }
        i = i + 1;
    }
    assert(segments@.take(segments.len() as int) =~= segments@);
    TaggedLine { spans: out }
}

/// The texts of a list of spans.
fn span_texts(spans: &Vec<StyledSpan>) -> (r: Vec<String>)
    ensures
        r@.map_values(|x: String| x@) == spans@.map_values(|s: StyledSpan| s.content@),
{
    let mut r: Vec<String> = Vec::new();
    let mut i: usize = 0;
    while i < spans.len()
        invariant
            i <= spans.len(),
            r@.map_values(|x: String| x@) == spans@.take(i as int).map_values(|s: StyledSpan| s.content@),
        decreases spans.len() - i,
    {
        let ghost before = r@;
        r.push(spans[i].content.clone());
        assert(r@.map_values(|x: String| x@) =~= before.map_values(|x: String| x@).push(spans@[i as int].content@));
        assert(spans@.take(i + 1).map_values(|s: StyledSpan| s.content@) =~= spans@.take(i as int).map_values(
            |s: StyledSpan| s.content@,
        ).push(spans@[i as int].content@));
        i = i + 1;
    }
    assert(spans@.take(spans.len() as int) =~= spans@);
    r
}

/// The time segments of a prefix are no more than those of the whole.
proof fn lemma_time_count_prefix(segs: Seq<RenderSegment>, k: int)
    requires
        0 <= k <= segs.len(),
    ensures
        time_count(segs.take(k)) <= time_count(segs),
        k > 0 && segs[k - 1] is DynamicTime ==> time_count(segs.take(k - 1)) < time_count(segs),
    decreases segs.len() - k,
{
    if k < segs.len() {
        lemma_time_count_prefix(segs, k + 1);
        assert(segs.take(k + 1).drop_last() =~= segs.take(k));
    } else {
        assert(segs.take(k) =~= segs);
    }
    if k > 0 {
        assert(segs.take(k).drop_last() =~= segs.take(k - 1));
    }
}

} // verus!
