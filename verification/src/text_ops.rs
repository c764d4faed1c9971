//! Character-sequence operations shared by the line parsers: substring
//! search, line splitting, trimming and splitting at a character.

use crate::text_buffer::{run_back, run_fwd, ws_p, nonws_p, lemma_run_back_le, lemma_run_fwd_ge};
use crate::unicode::{decimal, digit_char, is_whitespace, is_whitespace_spec};
use vstd::prelude::*;

verus! {

/// `p` occurs in `s` at character position `k`.
pub open spec fn occurs_at(s: Seq<char>, p: Seq<char>, k: int) -> bool {
    0 <= k && k + p.len() <= s.len() && s.subrange(k, k + p.len()) == p
}

/// First position at or after `i` where `p` occurs in `s`.
pub open spec fn find_from(s: Seq<char>, p: Seq<char>, i: int) -> Option<int>
    decreases s.len() + 1 - i,
{
    if i < 0 || i + p.len() > s.len() {
        None
    } else if s.subrange(i, i + p.len()) == p {
        Some(i)
    } else {
        find_from(s, p, i + 1)
    }
}

/// Positions of the occurrences of `p` in `s` from `i` on, found left to
/// right without overlapping.
pub open spec fn occurrences(s: Seq<char>, p: Seq<char>, i: int) -> Seq<int>
    decreases s.len() + 1 - i,
{
    if i < 0 || i > s.len() {
        Seq::empty()
    } else {
        match find_from(s, p, i) {
            None => Seq::empty(),
            Some(k) => {
                let next = if k + p.len() > i && k + p.len() <= s.len() {
                    k + p.len()
                } else {
                    i + 1
                };
                seq![k] + occurrences(s, p, next)
            },
        }
    }
}

/// `find_from` reaches every occurrence at or after its start.
pub proof fn lemma_find_from_finds(s: Seq<char>, p: Seq<char>, i: int, k: int)
    requires
        0 <= i <= k,
        occurs_at(s, p, k),
    ensures
        find_from(s, p, i) is Some,
    decreases k - i,
{
    if s.subrange(i, i + p.len()) != p {
        lemma_find_from_finds(s, p, i + 1, k);
    }
}

/// What `find_from` finds is an occurrence, at or after its start.
pub proof fn lemma_find_from_occurs(s: Seq<char>, p: Seq<char>, i: int)
    requires
        find_from(s, p, i) is Some,
    ensures
        i <= find_from(s, p, i).unwrap(),
        occurs_at(s, p, find_from(s, p, i).unwrap()),
    decreases s.len() + 1 - i,
{
    if !(i < 0 || i + p.len() > s.len()) && s.subrange(i, i + p.len()) != p {
        lemma_find_from_occurs(s, p, i + 1);
    }
}

/// Characters other than `c`.
pub open spec fn not_char_p(c: char) -> spec_fn(char) -> bool {
    |x: char| x != c
}

/// The fields of `s` between copies of `c`, from position `i` on (as
/// `str::split(c)` gives them).
pub open spec fn char_fields(s: Seq<char>, i: int, c: char) -> Seq<Seq<char>>
    decreases s.len() - i,
{
    if i < 0 || i > s.len() {
        Seq::empty()
    } else {
        let e = run_fwd(s, i, not_char_p(c));
        if e >= s.len() {
            seq![s.subrange(i, s.len() as int)]
        } else {
            proof {
                lemma_run_fwd_ge(s, i, not_char_p(c));
            }
            seq![s.subrange(i, e)] + char_fields(s, e + 1, c)
        }
    }
}

/// `s` starts with `p`.
pub open spec fn has_prefix(s: Seq<char>, p: Seq<char>) -> bool {
    p.len() <= s.len() && s.take(p.len() as int) == p
}

/// `s` without leading and trailing whitespace.
pub open spec fn trim(s: Seq<char>) -> Seq<char> {
    let a = run_fwd(s, 0, ws_p());
    let b = run_back(s, s.len() as int, ws_p());
    if a >= b {
        Seq::empty()
    } else {
        s.subrange(a, b)
    }
}

/// `s` without the trailing copies of `c`.
pub open spec fn trim_end_char(s: Seq<char>, c: char) -> Seq<char> {
    s.take(run_back(s, s.len() as int, is_char_p(c)))
}

pub open spec fn is_char_p(c: char) -> spec_fn(char) -> bool {
    |x: char| x == c
}

pub open spec fn not_newline_p() -> spec_fn(char) -> bool {
    |x: char| x != '\n'
}

/// The two parts of `s` around its first `c`.
pub open spec fn split_once(s: Seq<char>, c: char) -> Option<(Seq<char>, Seq<char>)> {
    match find_from(s, seq![c], 0) {
        None => None,
        Some(k) => Some((s.take(k), s.skip(k + 1))),
    }
}

/// End of the line starting at `i`: the position of the next newline, or
/// the end.
pub open spec fn line_stop(s: Seq<char>, i: int) -> int {
    run_fwd(s, i, not_newline_p())
}

/// The lines of `s` from position `i`: split at `\n`, a `\r` before the
/// `\n` dropped, and no empty line after a final newline.
pub open spec fn lines_from(s: Seq<char>, i: int) -> Seq<Seq<char>>
    decreases s.len() + 1 - i,
{
    if i < 0 || i >= s.len() {
        Seq::empty()
    } else {
        let e = line_stop(s, i);
        let line = if e < s.len() && e > i && s[e - 1] == '\r' {
            s.subrange(i, e - 1)
        } else {
            s.subrange(i, e)
        };
        let next = if e >= i && e <= s.len() {
            e + 1
        } else {
            i + 1
        };
        seq![line] + lines_from(s, next)
    }
}

/// The lines of `s`, as `str::lines` yields them.
pub open spec fn lines(s: Seq<char>) -> Seq<Seq<char>> {
    lines_from(s, 0)
}

/// Whether `p` occurs in `v` at `k`.
pub fn occurs_at_exec(v: &Vec<char>, p: &Vec<char>, k: usize) -> (b: bool)
    ensures
        b == occurs_at(v@, p@, k as int),
{
    if k > v.len() || p.len() > v.len() - k {
        return false;
    }
    let mut j: usize = 0;
    while j < p.len()
        invariant
            k + p.len() <= v.len(),
            j <= p.len(),
            forall|q: int| 0 <= q < j ==> v@[k + q] == p@[q],
        decreases p.len() - j,
    {
        if v[k + j] != p[j] {
            assert(v@.subrange(k as int, k + p.len())[j as int] != p@[j as int]);
            return false;
        }
        j = j + 1;
    }
    assert(v@.subrange(k as int, k + p.len()) =~= p@);
    true
}

/// First occurrence of `p` in `v` at or after `i`.
pub fn find_from_exec(v: &Vec<char>, p: &Vec<char>, i: usize) -> (r: Option<usize>)
    ensures
        match r {
            Some(k) => find_from(v@, p@, i as int) == Some(k as int) && i <= k && k + p.len() <= v.len(),
            None => find_from(v@, p@, i as int) is None,
        },
{
    if p.len() == 0 {
        if i <= v.len() {
            assert(v@.subrange(i as int, i as int) =~= p@);
            return Some(i);
        } else {
            return None;
        }
    }
    let mut k = i;
    while k <= v.len() && p.len() <= v.len() - k
        invariant
            i <= k,
            p.len() > 0,
            find_from(v@, p@, k as int) == find_from(v@, p@, i as int),
        decreases v.len() + 1 - k,
    {
        if occurs_at_exec(v, p, k) {
            return Some(k);
        }
        k = k + 1;
    }
    None
}

/// Copy of `v[a..b]`.
pub fn slice_chars(v: &Vec<char>, a: usize, b: usize) -> (r: Vec<char>)
    requires
        a <= b <= v.len(),
    ensures
        r@ == v@.subrange(a as int, b as int),
{
    crate::text_buffer::TextBuffer::chars_between_pub(v, a, b)
}

/// Whether `v` starts with `p`.
pub fn has_prefix_exec(v: &Vec<char>, p: &Vec<char>) -> (b: bool)
    ensures
        b == has_prefix(v@, p@),
{
    let r = occurs_at_exec(v, p, 0);
    proof {
        if p.len() <= v.len() {
            assert(v@.subrange(0, p.len() as int) =~= v@.take(p.len() as int));
        }
    }
    r
}

/// `v` without leading and trailing whitespace.
pub fn trim_exec(v: &Vec<char>) -> (r: Vec<char>)
    ensures
        r@ == trim(v@),
{
    let a = crate::text_buffer::fwd_over_ws(v, 0);
    let b = crate::text_buffer::back_over_ws_pub(v, v.len());
    if a >= b {
        Vec::new()
    } else {
        slice_chars(v, a, b)
    }
}

/// `v` without the trailing copies of `c`.
pub fn trim_end_char_exec(v: &Vec<char>, c: char) -> (r: Vec<char>)
    ensures
        r@ == trim_end_char(v@, c),
{
    let mut e = v.len();
    while e > 0 && v[e - 1] == c
        invariant
            e <= v.len(),
            run_back(v@, e as int, is_char_p(c)) == run_back(v@, v.len() as int, is_char_p(c)),
        decreases e,
    {
        e = e - 1;
    }
    let r = slice_chars(v, 0, e);
    assert(v@.subrange(0, e as int) =~= v@.take(e as int));
    r
}

/// The parts of `v` around its first `c`.
pub fn split_once_exec(v: &Vec<char>, c: char) -> (r: Option<(Vec<char>, Vec<char>)>)
    ensures
        match (r, split_once(v@, c)) {
            (Some(x), Some(y)) => x.0@ == y.0 && x.1@ == y.1,
            (None, None) => true,
            _ => false,
        },
{
    let mut p: Vec<char> = Vec::new();
    p.push(c);
    assert(p@ =~= seq![c]);
    match find_from_exec(v, &p, 0) {
        None => None,
        Some(k) => {
            let a = slice_chars(v, 0, k);
            let b = slice_chars(v, k + 1, v.len());
            assert(v@.subrange(0, k as int) =~= v@.take(k as int));
            assert(v@.subrange(k + 1, v.len() as int) =~= v@.skip(k + 1));
            Some((a, b))
        },
    }
}

/// The lines of `v`.
pub fn lines_exec(v: &Vec<char>) -> (r: Vec<Vec<char>>)
    ensures
        r@.map_values(|l: Vec<char>| l@) == lines(v@),
{
    let mut out: Vec<Vec<char>> = Vec::new();
    let mut i: usize = 0;
    while i < v.len()
        invariant
            i <= v.len(),
            out@.map_values(|l: Vec<char>| l@) + lines_from(v@, i as int) == lines(v@),
        decreases v.len() - i,
    {
        let mut e = i;
        while e < v.len() && v[e] != '\n'
            invariant
                i <= e <= v.len(),
                run_fwd(v@, e as int, not_newline_p()) == line_stop(v@, i as int),
            decreases v.len() - e,
        {
            e = e + 1;
        }
        let line = if e < v.len() && e > i && v[e - 1] == '\r' {
            slice_chars(v, i, e - 1)
        } else {
            slice_chars(v, i, e)
        };
        let ghost old_out = out@;
        out.push(line);
        proof {
            assert(out@.map_values(|l: Vec<char>| l@) =~= old_out.map_values(|l: Vec<char>| l@).push(line@));
            assert(lines_from(v@, i as int) == seq![line@] + lines_from(v@, e + 1));
            assert(old_out.map_values(|l: Vec<char>| l@).push(line@) + lines_from(v@, e + 1) =~= old_out.map_values(|l: Vec<char>| l@) + (seq![line@] + lines_from(v@, e + 1)));
        }
        if e >= v.len() {
            i = v.len();
        } else {
            i = e + 1;
        }
    }
    proof {
        assert(lines_from(v@, i as int) =~= Seq::<Seq<char>>::empty());
        assert(out@.map_values(|l: Vec<char>| l@) + Seq::<Seq<char>>::empty() =~= out@.map_values(|l: Vec<char>| l@));
    }
    out
}

/// The whitespace-separated words of `s` from position `i` on, as
/// `str::split_whitespace` yields them.
pub open spec fn words_from(s: Seq<char>, i: int) -> Seq<Seq<char>>
    decreases s.len() - i,
{
    if i < 0 || i >= s.len() {
        Seq::empty()
    } else if is_whitespace_spec(s[i]) {
        words_from(s, i + 1)
    } else {
        let b = run_fwd(s, i, nonws_p());
        proof {
            lemma_run_fwd_ge(s, i + 1, nonws_p());
        }
        seq![s.subrange(i, b)] + words_from(s, b)
    }
}

/// The whitespace-separated words of `s`.
pub open spec fn words(s: Seq<char>) -> Seq<Seq<char>> {
    words_from(s, 0)
}

/// `c` is an ASCII decimal digit.
pub open spec fn is_digit(c: char) -> bool {
    '0' <= c && c <= '9'
}

/// The value of the decimal digits `s`.
pub open spec fn digits_value(s: Seq<char>) -> nat
    decreases s.len(),
{
    if s.len() == 0 {
        0
    } else {
        digits_value(s.drop_last()) * 10 + ((s.last() as int) - ('0' as int)) as nat
    }
}

/// `d` is one or more decimal digits.
pub open spec fn all_digits(d: Seq<char>) -> bool {
    d.len() > 0 && forall|i: int| 0 <= i < d.len() ==> is_digit(#[trigger] d[i])
}

/// `s` without one leading `+`.
pub open spec fn without_plus(s: Seq<char>) -> Seq<char> {
    if s.len() > 0 && s[0] == '+' {
        s.drop_first()
    } else {
        s
    }
}

/// What `str::parse` gives for an unsigned integer type whose largest value
/// is `max`: an optional `+`, then one or more decimal digits whose value
/// is at most `max`.
pub open spec fn uint_text(s: Seq<char>, max: nat) -> Option<nat> {
    let d = without_plus(s);
    if all_digits(d) && digits_value(d) <= max {
        Some(digits_value(d))
    } else {
        None
    }
}

/// A decimal digit stands for its value.
proof fn lemma_digit_value(d: nat)
    requires
        d < 10,
    ensures
        (digit_char(d) as int) - ('0' as int) == d,
        is_digit(digit_char(d)),
{
}

/// The digits of a decimal numeral are digits, and they have its value.
proof fn lemma_decimal_digits(n: nat)
    ensures
        all_digits(decimal(n)),
        digits_value(decimal(n)) == n,
        decimal(n)[0] != '+',
    decreases n,
{
    let d = decimal(n);
    lemma_digit_value(n % 10);
    if n < 10 {
        assert(d =~= seq![digit_char(n)]);
        assert(d.drop_last() =~= Seq::<char>::empty());
        assert(digits_value(d) == digits_value(d.drop_last()) * 10 + ((d.last() as int) - ('0' as int)) as nat);
    } else {
        lemma_decimal_digits(n / 10);
        let p = decimal(n / 10);
        assert(d.drop_last() =~= p);
        assert(d.last() == digit_char(n % 10));
        assert(digits_value(d) == digits_value(p) * 10 + ((d.last() as int) - ('0' as int)) as nat);
        assert forall|i: int| 0 <= i < d.len() implies is_digit(#[trigger] d[i]) by {
            if i < p.len() {
                assert(d[i] == p[i]);
            }
        }
        assert(d[0] == p[0]);
    }
}

/// Reading back a number written in decimal gives the number: `str::parse`
/// accepts every count that the editor writes, up to the type's largest
/// value.
pub proof fn law_decimal_parses_back(n: nat, max: nat)
    requires
        n <= max,
    ensures
        uint_text(decimal(n), max) == Some(n),
{
    lemma_decimal_digits(n);
    assert(without_plus(decimal(n)) == decimal(n));
}

/// The words of `v`, split at whitespace.
pub fn words_exec(v: &Vec<char>) -> (r: Vec<Vec<char>>)
    ensures
        r@.map_values(|w: Vec<char>| w@) == words(v@),
{
    let mut out: Vec<Vec<char>> = Vec::new();
    let mut i: usize = 0;
    while i < v.len()
        invariant
            i <= v.len(),
            out@.map_values(|w: Vec<char>| w@) + words_from(v@, i as int) == words(v@),
        decreases v.len() - i,
    {
        if is_whitespace(v[i]) {
            i = i + 1;
        } else {
            let e = crate::text_buffer::fwd_over_nonws(v, i);
            proof {
                lemma_run_fwd_ge(v@, i + 1, nonws_p());
            }
            let w = slice_chars(v, i, e);
            let ghost old_out = out@;
            out.push(w);
            proof {
                assert(out@.map_values(|w: Vec<char>| w@) =~= old_out.map_values(|w: Vec<char>| w@).push(w@));
                assert(old_out.map_values(|w: Vec<char>| w@).push(w@) + words_from(v@, e as int)
                    =~= old_out.map_values(|w: Vec<char>| w@) + (seq![w@] + words_from(v@, e as int)));
            }
            i = e;
        }
    }
    proof {
        assert(out@.map_values(|w: Vec<char>| w@) + Seq::<Seq<char>>::empty() =~= out@.map_values(|w: Vec<char>| w@));
    }
    out
}

/// The unsigned integer written in `v`, if it is one and at most `max`.
pub fn parse_uint(v: &Vec<char>, max: u64) -> (r: Option<u64>)
    ensures
        match uint_text(v@, max as nat) {
            Some(n) => r == Some(n as u64),
            None => r is None,
        },
{
    let start: usize = if v.len() > 0 && v[0] == '+' { 1 } else { 0 };
    let ghost d = without_plus(v@);
    if start >= v.len() {
        return None;
    }
    let mut acc: u64 = 0;
    let mut over = false;
    let mut i = start;
    while i < v.len()
        invariant
            start <= i <= v.len(),
            start < v.len(),
            d == without_plus(v@),
            d == v@.skip(start as int),
            forall|j: int| 0 <= j < i - start ==> is_digit(#[trigger] d[j]),
            !over ==> acc == digits_value(d.take(i - start)) && acc <= max,
            over ==> digits_value(d.take(i - start)) > max,
        decreases v.len() - i,
    {
        let c = v[i];
        assert(d[i - start] == c);
        if !('0' <= c && c <= '9') {
            assert(!is_digit(d[i - start]));
            return None;
        }
        let dv = (c as u64) - ('0' as u64);
        let ghost t = d.take(i - start + 1);
        assert(t.drop_last() =~= d.take(i - start));
        assert(t.last() == c);
        if !over {
            if acc > max / 10 || dv > max - acc * 10 {
                over = true;
            } else {
                acc = acc * 10 + dv;
            }
        }
        i = i + 1;
    }
    assert(d.take(d.len() as int) =~= d);
    if over {
        None
    } else {
        Some(acc)
    }
}

/// The fields of `v` between copies of `c`.
pub fn char_fields_exec(v: &Vec<char>, c: char) -> (r: Vec<Vec<char>>)
    ensures
        r@.map_values(|x: Vec<char>| x@) == char_fields(v@, 0, c),
{
    let mut out: Vec<Vec<char>> = Vec::new();
    let mut i: usize = 0;
    loop
        invariant
            i <= v.len(),
            out@.map_values(|x: Vec<char>| x@) + char_fields(v@, i as int, c) == char_fields(v@, 0, c),
        decreases v.len() - i,
    {
        let mut e = i;
        while e < v.len() && v[e] != c
            invariant
                i <= e <= v.len(),
                run_fwd(v@, e as int, not_char_p(c)) == run_fwd(v@, i as int, not_char_p(c)),
            decreases v.len() - e,
        {
            e = e + 1;
        }
        let f = slice_chars(v, i, e);
        let ghost before = out@.map_values(|x: Vec<char>| x@);
        out.push(f);
        assert(out@.map_values(|x: Vec<char>| x@) =~= before.push(f@));
        if e >= v.len() {
            assert(before.push(f@) =~= before + char_fields(v@, i as int, c));
            return out;
        }
        assert(before.push(f@) + char_fields(v@, e + 1, c) =~= before + (seq![f@] + char_fields(v@, e + 1, c)));
        i = e + 1;
    }
}

/// A character's code with ASCII capitals folded to lower case.
pub open spec fn ascii_fold(c: char) -> u32 {
    if 'A' <= c && c <= 'Z' {
        (c as u32 + 32) as u32
    } else {
        c as u32
    }
}

/// Whether two texts are equal up to ASCII case (`str::eq_ignore_ascii_case`).
pub open spec fn eq_ignore_ascii_case(a: Seq<char>, b: Seq<char>) -> bool {
    a.len() == b.len() && forall|i: int| 0 <= i < a.len() ==> ascii_fold(#[trigger] a[i]) == ascii_fold(b[i])
}

fn ascii_fold_exec(c: char) -> (r: u32)
    ensures
        r == ascii_fold(c),
{
    if 'A' <= c && c <= 'Z' {
        c as u32 + 32
    } else {
        c as u32
    }
}

/// `str::eq_ignore_ascii_case` on character runs.
pub fn eq_ignore_ascii_case_exec(a: &Vec<char>, b: &Vec<char>) -> (r: bool)
    ensures
        r == eq_ignore_ascii_case(a@, b@),
{
    if a.len() != b.len() {
        return false;
    }
    let mut i: usize = 0;
    while i < a.len()
        invariant
            a.len() == b.len(),
            i <= a.len(),
            forall|j: int| 0 <= j < i ==> ascii_fold(#[trigger] a@[j]) == ascii_fold(b@[j]),
        decreases a.len() - i,
    {
        if ascii_fold_exec(a[i]) != ascii_fold_exec(b[i]) {
            return false;
        }
        i = i + 1;
    }
    true
}

/// Whether two character runs are equal.
pub fn chars_eq_exec(a: &Vec<char>, b: &Vec<char>) -> (r: bool)
    ensures
        r == (a@ == b@),
{
    if a.len() != b.len() {
        return false;
    }
    let mut i: usize = 0;
    while i < a.len()
        invariant
            a.len() == b.len(),
            i <= a.len(),
            forall|j: int| 0 <= j < i ==> #[trigger] a@[j] == b@[j],
        decreases a.len() - i,
    {
        if a[i] != b[i] {
            return false;
        }
        i = i + 1;
    }
    assert(a@ =~= b@);
    true
}

} // verus!
