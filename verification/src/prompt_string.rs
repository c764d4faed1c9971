//! Preparing a bash prompt string: its time escapes are replaced by unique
//! placeholders before bash decodes the string, and the decoded text is
//! then cut into the segments that are drawn differently (times,
//! animations, widgets, the working directory) and the static text around
//! them.

use crate::prompt_manager::{
    byte_range, find_cwd_in_span, find_cwd_spec, opt_str, range_view, split_cwd_spec,
    split_cwd_text_into_spans,
};
use crate::text_buffer::{lemma_run_fwd_ge, run_fwd};
use crate::text_ops::{find_from, find_from_exec, lemma_find_from_occurs, slice_chars};
use crate::unicode::{
    append_chars, byte_len, char_pos_for_byte, char_pos_of_byte, chars_of, digit_char, str_byte_len,
    string_of,
};
use vstd::prelude::*;

verus! {

/// The hexadecimal digit `d` (below 16), upper case.
pub open spec fn hex_digit(d: nat) -> char {
    if d < 10 {
        digit_char(d)
    } else if d == 10 {
        'A'
    } else if d == 11 {
        'B'
    } else if d == 12 {
        'C'
    } else if d == 13 {
        'D'
    } else if d == 14 {
        'E'
    } else {
        'F'
    }
}

/// `n` in upper-case hexadecimal, without leading zeros.
pub open spec fn hex(n: nat) -> Seq<char>
    decreases n,
{
    if n < 16 {
        seq![hex_digit(n)]
    } else {
        hex(n / 16).push(hex_digit(n % 16))
    }
}

/// The placeholder that stands for the time escape numbered `n`: `FLYT`
/// and `n` in upper-case hexadecimal, zero-padded to four digits.
pub open spec fn placeholder_id(n: nat) -> Seq<char> {
    let h = hex(n);
    if h.len() < 4 {
        "FLYT"@ + Seq::new((4 - h.len()) as nat, |_i: int| '0') + h
    } else {
        "FLYT"@ + h
    }
}

fn hex_char(d: u32) -> (c: char)
    requires
        d < 16,
    ensures
        c == hex_digit(d as nat),
{
    if d == 0 {
        '0'
    } else if d == 1 {
        '1'
    } else if d == 2 {
        '2'
    } else if d == 3 {
        '3'
    } else if d == 4 {
        '4'
    } else if d == 5 {
        '5'
    } else if d == 6 {
        '6'
    } else if d == 7 {
        '7'
    } else if d == 8 {
        '8'
    } else if d == 9 {
        '9'
    } else if d == 10 {
        'A'
    } else if d == 11 {
        'B'
    } else if d == 12 {
        'C'
    } else if d == 13 {
        'D'
    } else if d == 14 {
        'E'
    } else {
        'F'
    }
}

fn hex_chars(n: u32) -> (v: Vec<char>)
    ensures
        v@ == hex(n as nat),
    decreases n,
{
    let c = hex_char(n % 16);
    if n < 16 {
        let mut v: Vec<char> = Vec::new();
        v.push(c);
        assert(v@ =~= seq![hex_digit(n as nat)]);
        v
    } else {
        let mut v = hex_chars(n / 16);
        v.push(c);
        v
    }
}

/// The chrono format of the one-letter bash time escapes `\t`, `\T`, `\@`
/// and `\A`.
pub open spec fn letter_format(c: char) -> Option<Seq<char>> {
    if c == 't' {
        Some("%H:%M:%S"@)
    } else if c == 'T' {
        Some("%I:%M:%S"@)
    } else if c == '@' {
        Some("%I:%M %p"@)
    } else if c == 'A' {
        Some("%H:%M"@)
    } else {
        None
    }
}

/// Characters other than `}`.
pub open spec fn not_brace_p() -> spec_fn(char) -> bool {
    |c: char| c != '}'
}

/// Position of the first `}` at or after `j`, or the end.
pub open spec fn brace_end(s: Seq<char>, j: int) -> int {
    run_fwd(s, j, not_brace_p())
}

/// The prompt text from position `i` on with its time escapes replaced by
/// the placeholders numbered from `n` up, and the chrono formats of those
/// escapes in order. `\\` stays as it is (bash reads it later); `\t`, `\T`,
/// `\@`, `\A` and `\D{format}` become placeholders (an empty format, or a
/// format not closed by `}`, runs to its end; an empty one means `%T`);
/// any other backslash is kept, and the character after it read normally.
pub open spec fn time_codes(s: Seq<char>, i: int, n: nat) -> (Seq<char>, Seq<Seq<char>>)
    decreases s.len() - i,
    via time_codes_decreases
{
    if i < 0 || i >= s.len() {
        (Seq::empty(), Seq::empty())
    } else if s[i] != '\\' {
        let r = time_codes(s, i + 1, n);
        (seq![s[i]] + r.0, r.1)
    } else if i + 1 >= s.len() {
        (seq!['\\'], Seq::empty())
    } else {
        let c = s[i + 1];
        if c == '\\' {
            let r = time_codes(s, i + 2, n);
            (seq!['\\', '\\'] + r.0, r.1)
        } else if letter_format(c) is Some {
            let r = time_codes(s, i + 2, n + 1);
            (placeholder_id(n) + r.0, seq![letter_format(c).unwrap()] + r.1)
        } else if c == 'D' {
            if i + 2 < s.len() && s[i + 2] == '{' {
                let e = brace_end(s, i + 3);
                let fmt = s.subrange(i + 3, e);
                let f = if fmt.len() == 0 {
                    "%T"@
                } else {
                    fmt
                };
                let next = if e < s.len() {
                    e + 1
                } else {
                    s.len() as int
                };
                let r = time_codes(s, next, n + 1);
                (placeholder_id(n) + r.0, seq![f] + r.1)
            } else {
                let r = time_codes(s, i + 2, n);
                (seq!['\\', 'D'] + r.0, r.1)
            }
        } else {
            let r = time_codes(s, i + 1, n);
            (seq!['\\'] + r.0, r.1)
        }
    }
}

#[via_fn]
proof fn time_codes_decreases(s: Seq<char>, i: int, n: nat) {
    lemma_run_fwd_ge(s, i + 3, not_brace_p());
}

/// Placeholder numbering and the time formats found so far, shared by all
/// the prompt strings of one prompt so that placeholders stay unique.
pub struct PromptStringBuilder {
    counter: u32,
    time_map: Vec<(String, String)>,
}

/// A placeholder and its time format, as plain sequences.
pub open spec fn entry_view(e: (String, String)) -> (Seq<char>, Seq<char>) {
    (e.0@, e.1@)
}

/// The placeholder entries made for `fmts`, numbered from `n`.
pub open spec fn entries_from(n: nat, fmts: Seq<Seq<char>>) -> Seq<(Seq<char>, Seq<char>)> {
    Seq::new(fmts.len(), |j: int| (placeholder_id(n + j as nat), fmts[j]))
}

impl PromptStringBuilder {
    /// The number of the next placeholder.
    pub closed spec fn counter(&self) -> nat {
        self.counter as nat
    }

    /// The placeholders made so far with their time formats, in order.
    pub closed spec fn times(&self) -> Seq<(Seq<char>, Seq<char>)> {
        self.time_map@.map_values(|e: (String, String)| entry_view(e))
    }

    /// A builder with no placeholders yet.
    pub fn new() -> (b: Self)
        ensures
            b.counter() == 0,
            b.times().len() == 0,
            b.wf(),
    {
        let b = PromptStringBuilder { counter: 0, time_map: Vec::new() };
        assert(b.times() =~= Seq::<(Seq<char>, Seq<char>)>::empty());
        b
    }

    /// The placeholders and their formats, as pairs of strings.
    pub fn time_map(&self) -> (m: &Vec<(String, String)>)
        ensures
            m@.map_values(|e: (String, String)| entry_view(e)) == self.times(),
    {
        &self.time_map
    }

    /// Take the next placeholder identifier.
    pub fn next_id(&mut self) -> (id: String)
        requires
            old(self).counter() < u32::MAX,
        ensures
            id@ == placeholder_id(old(self).counter()),
            final(self).counter() == old(self).counter() + 1,
            final(self).times() == old(self).times(),
    {
        let h = hex_chars(self.counter);
        let mut v = chars_of("FLYT");
        if h.len() < 4 {
            let mut k: usize = 0;
            let z = 4 - h.len();
            while k < z
                invariant
                    k <= z,
                    v@ == "FLYT"@ + Seq::new(k as nat, |_i: int| '0'),
                decreases z - k,
            {
                v.push('0');
                k = k + 1;
                assert(v@ =~= "FLYT"@ + Seq::new(k as nat, |_i: int| '0'));
            }
        }
        append_chars(&mut v, &h);
        self.counter = self.counter + 1;
        string_of(&v)
    }

    /// Replace the time escapes of the prompt string `s` by fresh
    /// placeholders (see `time_codes`), remembering each placeholder's
    /// format.
    pub fn extract_time_codes(&mut self, s: &str) -> (r: String)
        requires
            old(self).counter() + time_codes(s@, 0, old(self).counter()).1.len() <= u32::MAX,
            old(self).wf(),
        ensures
            final(self).wf(),
            r@ == time_codes(s@, 0, old(self).counter()).0,
            final(self).counter() == old(self).counter() + time_codes(s@, 0, old(self).counter()).1.len(),
            final(self).times() == old(self).times() + entries_from(
                old(self).counter(),
                time_codes(s@, 0, old(self).counter()).1,
            ),
    {
        let v = chars_of(s);
        let ghost n0 = self.counter as nat;
        let ghost whole = time_codes(v@, 0, n0);
        let ghost t0 = self.times();
        let mut out: Vec<char> = Vec::new();
        let ghost mut fmts: Seq<Seq<char>> = Seq::empty();
        let mut i: usize = 0;
        while i < v.len()
            invariant
                i <= v.len(),
                v@ == s@,
                whole == time_codes(v@, 0, n0),
                n0 + whole.1.len() <= u32::MAX,
                self.counter() == n0 + fmts.len(),
                out@ + time_codes(v@, i as int, self.counter()).0 == whole.0,
                fmts + time_codes(v@, i as int, self.counter()).1 == whole.1,
                self.times() == t0 + entries_from(n0, fmts),
                self.wf(),
            decreases v.len() - i,
        {
            let ghost rest = time_codes(v@, i as int, self.counter());
            let c = v[i];
            if c != '\\' {
                out.push(c);
                proof {
                    assert(out@ + time_codes(v@, i + 1, self.counter()).0 =~= whole.0);
                }
                i = i + 1;
            } else if i + 1 >= v.len() {
                out.push('\\');
                proof {
                    assert(out@ + time_codes(v@, i + 1, self.counter()).0 =~= whole.0);
                    assert(fmts + time_codes(v@, i + 1, self.counter()).1 =~= whole.1);
                }
                i = i + 1;
            } else {
                let d = v[i + 1];
                if d == '\\' {
                    out.push('\\');
                    out.push('\\');
                    proof {
                        assert(out@ + time_codes(v@, i + 2, self.counter()).0 =~= whole.0);
                    }
                    i = i + 2;
                } else if d == 't' || d == 'T' || d == '@' || d == 'A' {
                    let f = if d == 't' {
                        "%H:%M:%S"
                    } else if d == 'T' {
                        "%I:%M:%S"
                    } else if d == '@' {
                        "%I:%M %p"
                    } else {
                        "%H:%M"
                    };
                    let i2 = i + 2;
                    let ghost n = self.counter();
                    assert(rest.1 == seq![f@] + time_codes(v@, i2 as int, n + 1).1);
                    self.record(&mut out, f);
                    proof {
                        let later = time_codes(v@, i2 as int, self.counter());
                        assert(rest.0 == placeholder_id(n) + later.0);
                        assert(entries_from(n0, fmts.push(f@)) =~= entries_from(n0, fmts).push((placeholder_id(n), f@)));
                        fmts = fmts.push(f@);
                        assert(out@ + later.0 =~= whole.0);
                        assert(fmts + later.1 =~= whole.1);
                    }
                    i = i2;
                } else if d == 'D' {
                    if i + 2 < v.len() && v[i + 2] == '{' {
                        let mut e = i + 3;
                        while e < v.len() && v[e] != '}'
                            invariant
                                i + 3 <= e <= v.len(),
                                run_fwd(v@, e as int, not_brace_p()) == brace_end(v@, i + 3),
                            decreases v.len() - e,
                        {
                            e = e + 1;
                        }
                        let fmt = slice_chars(&v, i + 3, e);
                        let f = if fmt.len() == 0 {
                            string_of(&chars_of("%T"))
                        } else {
                            string_of(&fmt)
                        };
                        let ghost n = self.counter();
                        let ghost next: int = if e < v.len() { e + 1 } else { v.len() as int };
                        assert(rest.1 == seq![f@] + time_codes(v@, next, n + 1).1);
                        self.record(&mut out, f.as_str());
                        let i2 = if e < v.len() {
                            e + 1
                        } else {
                            v.len()
                        };
                        proof {
                            let later = time_codes(v@, i2 as int, self.counter());
                            assert(rest.0 == placeholder_id(n) + later.0);
                            assert(entries_from(n0, fmts.push(f@)) =~= entries_from(n0, fmts).push((placeholder_id(n), f@)));
                            fmts = fmts.push(f@);
                            assert(out@ + later.0 =~= whole.0);
                            assert(fmts + later.1 =~= whole.1);
                        }
                        i = i2;
                    } else {
                        out.push('\\');
                        out.push('D');
                        proof {
                            assert(out@ + time_codes(v@, i + 2, self.counter()).0 =~= whole.0);
                        }
                        i = i + 2;
                    }
                } else {
                    out.push('\\');
                    proof {
                        assert(out@ + time_codes(v@, i + 1, self.counter()).0 =~= whole.0);
                    }
                    i = i + 1;
                }
            }
        }
        proof {
            assert(out@ + Seq::<char>::empty() =~= out@);
            assert(fmts + Seq::<Seq<char>>::empty() =~= fmts);
        }
        string_of(&out)
    }

    /// Append a fresh placeholder for the format `f` to `out` and remember
    /// the pair.
    fn record(&mut self, out: &mut Vec<char>, f: &str)
        requires
            old(self).counter() < u32::MAX,
            old(self).wf(),
        ensures
            final(self).wf(),
            final(out)@ == old(out)@ + placeholder_id(old(self).counter()),
            final(self).counter() == old(self).counter() + 1,
            final(self).times() == old(self).times().push((placeholder_id(old(self).counter()), f@)),
    {
        let id = self.next_id();
        append_chars(out, &chars_of(id.as_str()));
        self.time_map.push((id, string_of(&chars_of(f))));
        assert(self.times() =~= old(self).times().push((placeholder_id(old(self).counter()), f@)));
        proof {
            lemma_placeholder_nonempty(old(self).counter());
        }
    }
}

/// A piece of a decoded prompt line, as plain values.
pub enum SegView {
    /// Text drawn as it is.
    Static(Seq<char>),
    /// The current time, in the given chrono format.
    Time(Seq<char>),
    /// The animation with this index.
    Animation(nat),
    /// The widget with this index.
    Widget(nat),
    /// The working directory, in its pieces.
    Cwd(Seq<Seq<char>>),
}

/// A piece of a decoded prompt line.
#[derive(Debug)]
pub enum PromptSegment {
    /// Text drawn as it is.
    Static(String),
    /// The current time, in the given chrono format.
    DynamicTime(String),
    /// The animation with this index among those given.
    Animation(usize),
    /// The widget with this index among those given.
    Widget(usize),
    /// The working directory, in its pieces (see `split_cwd_text_into_spans`).
    Cwd(Vec<String>),
}

impl View for PromptSegment {
    type V = SegView;

    open spec fn view(&self) -> SegView {
        match self {
            PromptSegment::Static(s) => SegView::Static(s@),
            PromptSegment::DynamicTime(f) => SegView::Time(f@),
            PromptSegment::Animation(i) => SegView::Animation(*i as nat),
            PromptSegment::Widget(i) => SegView::Widget(*i as nat),
            PromptSegment::Cwd(v) => SegView::Cwd(v@.map_values(|x: String| x@)),
        }
    }
}

/// The views of a list of segments.
pub open spec fn seg_views(v: Seq<PromptSegment>) -> Seq<SegView> {
    v.map_values(|x: PromptSegment| x@)
}

/// Which kind of name a splitting pass looks for.
#[derive(Debug, Clone, Copy, PartialEq, Eq, Structural)]
pub enum NameKind {
    /// Time placeholders; each stands for its format.
    Time,
    /// Animation names.
    Animation,
    /// Widget names.
    Widget,
}

/// The segment for the name with index `j` of kind `k`, time placeholder
/// `j` having the format `fmts[j]`.
pub open spec fn named(k: NameKind, fmts: Seq<Seq<char>>, j: nat) -> SegView {
    match k {
        NameKind::Time => SegView::Time(fmts[j as int]),
        NameKind::Animation => SegView::Animation(j),
        NameKind::Widget => SegView::Widget(j),
    }
}

/// The earliest occurrence in `t` of one of `names[0..m]`, as (position,
/// index); of names found at the same position, the first listed.
pub open spec fn earliest(t: Seq<char>, names: Seq<Seq<char>>, m: int) -> Option<(int, int)>
    decreases m,
{
    if m <= 0 {
        None
    } else {
        let prev = earliest(t, names, m - 1);
        match find_from(t, names[m - 1], 0) {
            None => prev,
            Some(p) => match prev {
                None => Some((p, m - 1)),
                Some(q) => if p < q.0 {
                    Some((p, m - 1))
                } else {
                    prev
                },
            },
        }
    }
}

/// `t` cut at the occurrences of `names`, found earliest first and left to
/// right: the text between them stays static, each occurrence becomes the
/// segment for its name.
pub open spec fn split_by(t: Seq<char>, names: Seq<Seq<char>>, k: NameKind, fmts: Seq<Seq<char>>) -> Seq<SegView>
    decreases t.len(),
{
    match earliest(t, names, names.len() as int) {
        None => if t.len() > 0 {
            seq![SegView::Static(t)]
        } else {
            Seq::empty()
        },
        Some((p, j)) => {
            let q = p + names[j].len();
            let head = if p > 0 {
                seq![SegView::Static(t.take(p))]
            } else {
                Seq::empty()
            };
            if 0 < q <= t.len() {
                head.push(named(k, fmts, j as nat)) + split_by(t.skip(q), names, k, fmts)
            } else {
                head.push(named(k, fmts, j as nat))
            }
        },
    }
}

/// `split_by`, giving one empty static segment rather than nothing.
pub open spec fn split_span(t: Seq<char>, names: Seq<Seq<char>>, k: NameKind, fmts: Seq<Seq<char>>) -> Seq<SegView> {
    let r = split_by(t, names, k, fmts);
    if r.len() == 0 {
        seq![SegView::Static(Seq::empty())]
    } else {
        r
    }
}

/// Each static segment of `segs` replaced by its split at `names`; the
/// others kept.
pub open spec fn split_statics(segs: Seq<SegView>, names: Seq<Seq<char>>, k: NameKind) -> Seq<SegView>
    decreases segs.len(),
{
    if segs.len() == 0 {
        Seq::empty()
    } else {
        let rest = split_statics(segs.drop_last(), names, k);
        match segs.last() {
            SegView::Static(s) => rest + split_span(s, names, k, Seq::empty()),
            other => rest.push(other),
        }
    }
}

/// A static text with the working directory found in it set apart.
pub open spec fn cwd_split(s: Seq<char>, cwd: Seq<char>, home: Option<Seq<char>>) -> Seq<SegView> {
    match find_cwd_spec(s, cwd, home) {
        None => seq![SegView::Static(s)],
        Some((a, b)) => {
            let head = if a > 0 {
                seq![SegView::Static(s.take(a))]
            } else {
                Seq::empty()
            };
            let tail = if b < s.len() {
                seq![SegView::Static(s.skip(b))]
            } else {
                Seq::empty()
            };
            head + seq![SegView::Cwd(split_cwd_spec(s.subrange(a, b)))] + tail
        },
    }
}

/// Each static segment of `segs` with the working directory set apart.
pub open spec fn cwd_statics(segs: Seq<SegView>, cwd: Seq<char>, home: Option<Seq<char>>) -> Seq<SegView>
    decreases segs.len(),
{
    if segs.len() == 0 {
        Seq::empty()
    } else {
        let rest = cwd_statics(segs.drop_last(), cwd, home);
        match segs.last() {
            SegView::Static(s) => rest + cwd_split(s, cwd, home),
            other => rest.push(other),
        }
    }
}

/// The segments of a decoded prompt span: time placeholders first, then
/// animation names, then widget names, each pass cutting only the text
/// left static by the passes before; last, when the working directory is
/// known, its occurrence in each static text.
pub open spec fn expand_segments(
    t: Seq<char>,
    times: Seq<(Seq<char>, Seq<char>)>,
    animations: Seq<Seq<char>>,
    widgets: Seq<Seq<char>>,
    cwd: Option<Seq<char>>,
    home: Option<Seq<char>>,
) -> Seq<SegView> {
    let ids = times.map_values(|e: (Seq<char>, Seq<char>)| e.0);
    let fmts = times.map_values(|e: (Seq<char>, Seq<char>)| e.1);
    let p1 = split_span(t, ids, NameKind::Time, fmts);
    let p2 = split_statics(p1, animations, NameKind::Animation);
    let p3 = split_statics(p2, widgets, NameKind::Widget);
    match cwd {
        Some(c) => cwd_statics(p3, c, home),
        None => p3,
    }
}

/// Every name is non-empty.
pub open spec fn names_ok(names: Seq<Seq<char>>) -> bool {
    forall|j: int| 0 <= j < names.len() ==> #[trigger] names[j].len() > 0
}

/// What `earliest` finds is an occurrence of the name it names.
proof fn lemma_earliest_found(t: Seq<char>, names: Seq<Seq<char>>, m: int)
    requires
        m <= names.len(),
    ensures
        earliest(t, names, m) matches Some(x) ==> 0 <= x.1 < m && find_from(t, names[x.1], 0) == Some(x.0),
    decreases m,
{
    if m > 0 {
        lemma_earliest_found(t, names, m - 1);
    }
}

/// The earliest occurrence in `t` of one of `names`.
fn earliest_exec(t: &Vec<char>, names: &Vec<Vec<char>>) -> (r: Option<(usize, usize)>)
    ensures
        match (r, earliest(t@, names@.map_values(|n: Vec<char>| n@), names.len() as int)) {
            (Some(x), Some(y)) => x.0 as int == y.0 && x.1 as int == y.1 && x.1 < names.len(),
            (None, None) => true,
            _ => false,
        },
{
    let ghost ns = names@.map_values(|n: Vec<char>| n@);
    let mut best: Option<(usize, usize)> = None;
    let mut m: usize = 0;
    while m < names.len()
        invariant
            m <= names.len(),
            ns == names@.map_values(|n: Vec<char>| n@),
            match (best, earliest(t@, ns, m as int)) {
                (Some(x), Some(y)) => x.0 as int == y.0 && x.1 as int == y.1 && x.1 < m,
                (None, None) => true,
                _ => false,
            },
        decreases names.len() - m,
    {
        assert(ns[m as int] == names@[m as int]@);
        match find_from_exec(t, &names[m], 0) {
            None => {},
            Some(p) => {
                best = match best {
                    None => Some((p, m)),
                    Some(q) => if p < q.0 {
                        Some((p, m))
                    } else {
                        Some(q)
                    },
                };
            },
        }
        m = m + 1;
    }
    best
}

/// The segment for name `j` of kind `k`.
fn named_exec(k: NameKind, fmts: &Vec<String>, j: usize) -> (s: PromptSegment)
    requires
        k == NameKind::Time ==> j < fmts.len(),
    ensures
        s@ == named(k, fmts@.map_values(|f: String| f@), j as nat),
{
    match k {
        NameKind::Time => PromptSegment::DynamicTime(fmts[j].clone()),
        NameKind::Animation => PromptSegment::Animation(j),
        NameKind::Widget => PromptSegment::Widget(j),
    }
}

/// Append `split_span(t, names, k, fmts)` to `out`.
fn split_span_into(out: &mut Vec<PromptSegment>, t: &Vec<char>, names: &Vec<Vec<char>>, k: NameKind, fmts: &Vec<String>)
    requires
        names_ok(names@.map_values(|n: Vec<char>| n@)),
        k == NameKind::Time ==> fmts.len() == names.len(),
    ensures
        seg_views(final(out)@) == seg_views(old(out)@) + split_span(
            t@,
            names@.map_values(|n: Vec<char>| n@),
            k,
            fmts@.map_values(|f: String| f@),
        ),
{
    let ghost ns = names@.map_values(|n: Vec<char>| n@);
    let ghost fs = fmts@.map_values(|f: String| f@);
    let ghost start = seg_views(out@);
    let ghost whole = split_by(t@, ns, k, fs);
    let n0 = out.len();
    let mut pos: usize = 0;
    assert(t@.skip(0) =~= t@);
    let mut done = false;
    while !done
        invariant
            pos <= t.len(),
            ns == names@.map_values(|n: Vec<char>| n@),
            fs == fmts@.map_values(|f: String| f@),
            names_ok(ns),
            k == NameKind::Time ==> fmts.len() == names.len(),
            whole == split_by(t@, ns, k, fs),
            n0 == start.len(),
            start == seg_views(old(out)@),
            !done ==> seg_views(out@) + split_by(t@.skip(pos as int), ns, k, fs) == start + whole,
            done ==> seg_views(out@) == start + whole,
        decreases t.len() - pos + (if done { 0int } else { 1int }),
    {
        let rem = slice_chars(t, pos, t.len());
        assert(rem@ =~= t@.skip(pos as int));
        let ghost before = out@;
        match earliest_exec(&rem, names) {
            None => {
                if rem.len() > 0 {
                    out.push(PromptSegment::Static(string_of(&rem)));
                    assert(seg_views(out@) =~= seg_views(before).push(SegView::Static(rem@)));
                    assert(seg_views(before) + seq![SegView::Static(rem@)] =~= seg_views(before).push(SegView::Static(rem@)));
                } else {
                    assert(seg_views(before) + Seq::<SegView>::empty() =~= seg_views(before));
                }
                done = true;
            },
            Some((p, j)) => {
                proof {
                    lemma_earliest_found(rem@, ns, names.len() as int);
                    lemma_find_from_occurs(rem@, ns[j as int], 0);
                }
                assert(ns[j as int] == names@[j as int]@);
                let q = p + names[j].len();
                let ghost head = if p > 0 {
                    seq![SegView::Static(rem@.take(p as int))]
                } else {
                    Seq::<SegView>::empty()
                };
                if p > 0 {
                    let pre = slice_chars(&rem, 0, p);
                    assert(pre@ =~= rem@.take(p as int));
                    out.push(PromptSegment::Static(string_of(&pre)));
                }
                assert(seg_views(out@) =~= seg_views(before) + head);
                let ghost mid = seg_views(out@);
                out.push(named_exec(k, fmts, j));
                assert(seg_views(out@) =~= mid.push(named(k, fs, j as nat)));
                assert(rem@.skip(q as int) =~= t@.skip(pos + q));
                assert(seg_views(out@) + split_by(t@.skip(pos + q), ns, k, fs) =~= seg_views(before) + (head.push(named(k, fs, j as nat)) + split_by(rem@.skip(q as int), ns, k, fs)));
                pos = pos + q;
            },
        }
    }
    if out.len() == n0 {
        out.push(PromptSegment::Static(String::new()));
        assert(whole =~= Seq::<SegView>::empty());
        assert(seg_views(out@) =~= start.push(SegView::Static(Seq::empty())));
    } else {
        assert(whole.len() > 0);
    }
}

/// A copy of a list of strings.
fn copy_strings(v: &Vec<String>) -> (r: Vec<String>)
    ensures
        r@.map_values(|x: String| x@) == v@.map_values(|x: String| x@),
{
    let mut r: Vec<String> = Vec::new();
    let mut i: usize = 0;
    while i < v.len()
        invariant
            i <= v.len(),
            r@.map_values(|x: String| x@) == v@.take(i as int).map_values(|x: String| x@),
        decreases v.len() - i,
    {
        let ghost before = r@;
        let c = v[i].clone();
        r.push(c);
        assert(r@.map_values(|x: String| x@) =~= before.map_values(|x: String| x@).push(c@));
        assert(v@.take(i + 1).map_values(|x: String| x@) =~= v@.take(i as int).map_values(|x: String| x@).push(v@[i as int]@));
        i = i + 1;
    }
    assert(v@.take(v.len() as int) =~= v@);
    r
}

/// A copy of a segment.
fn copy_segment(s: &PromptSegment) -> (r: PromptSegment)
    ensures
        r@ == s@,
{
    match s {
        PromptSegment::Static(t) => PromptSegment::Static(t.clone()),
        PromptSegment::DynamicTime(f) => PromptSegment::DynamicTime(f.clone()),
        PromptSegment::Animation(i) => PromptSegment::Animation(*i),
        PromptSegment::Widget(i) => PromptSegment::Widget(*i),
        PromptSegment::Cwd(v) => PromptSegment::Cwd(copy_strings(v)),
    }
}

/// The characters of each string.
fn char_vecs(v: &Vec<String>) -> (r: Vec<Vec<char>>)
    ensures
        r@.map_values(|x: Vec<char>| x@) == v@.map_values(|x: String| x@),
{
    let mut r: Vec<Vec<char>> = Vec::new();
    let mut i: usize = 0;
    while i < v.len()
        invariant
            i <= v.len(),
            r@.map_values(|x: Vec<char>| x@) == v@.take(i as int).map_values(|x: String| x@),
        decreases v.len() - i,
    {
        let ghost before = r@;
        let c = chars_of(v[i].as_str());
        r.push(c);
        assert(r@.map_values(|x: Vec<char>| x@) =~= before.map_values(|x: Vec<char>| x@).push(c@));
        assert(v@.take(i + 1).map_values(|x: String| x@) =~= v@.take(i as int).map_values(|x: String| x@).push(v@[i as int]@));
        i = i + 1;
    }
    assert(v@.take(v.len() as int) =~= v@);
    r
}

/// `split_statics` of `segs`.
fn split_statics_exec(segs: &Vec<PromptSegment>, names: &Vec<Vec<char>>, k: NameKind) -> (r: Vec<PromptSegment>)
    requires
        names_ok(names@.map_values(|n: Vec<char>| n@)),
        k != NameKind::Time,
    ensures
        seg_views(r@) == split_statics(seg_views(segs@), names@.map_values(|n: Vec<char>| n@), k),
{
    let ghost ns = names@.map_values(|n: Vec<char>| n@);
    let empty: Vec<String> = Vec::new();
    assert(empty@.map_values(|f: String| f@) =~= Seq::<Seq<char>>::empty());
    let mut out: Vec<PromptSegment> = Vec::new();
    let mut i: usize = 0;
    while i < segs.len()
        invariant
            i <= segs.len(),
            ns == names@.map_values(|n: Vec<char>| n@),
            names_ok(ns),
            k != NameKind::Time,
            empty@.map_values(|f: String| f@) == Seq::<Seq<char>>::empty(),
            seg_views(out@) == split_statics(seg_views(segs@.take(i as int)), ns, k),
        decreases segs.len() - i,
    {
        assert(seg_views(segs@.take(i + 1)).drop_last() =~= seg_views(segs@.take(i as int)));
        assert(seg_views(segs@.take(i + 1)).last() == segs@[i as int]@);
        let ghost before = seg_views(out@);
        match &segs[i] {
            PromptSegment::Static(t) => {
                split_span_into(&mut out, &chars_of(t.as_str()), names, k, &empty);
            },
            other => {
                out.push(copy_segment(other));
                assert(seg_views(out@) =~= before.push(segs@[i as int]@));
            },
        }
        i = i + 1;
    }
    assert(segs@.take(segs.len() as int) =~= segs@);
    out
}

/// A static text with the working directory found in it set apart (see
/// `cwd_split`): the text before it, the directory in its pieces, the text
/// after it, or the whole text when the directory is not there.
pub fn split_static_span_by_cwd(text: &str, cwd: &str, home: Option<&str>) -> (r: Vec<PromptSegment>)
    ensures
        seg_views(r@) == cwd_split(text@, cwd@, opt_str(home)),
{
    let mut out: Vec<PromptSegment> = Vec::new();
    let n = str_byte_len(text);
    let v = chars_of(text);
    match crate::prompt_manager::find_cwd_chars(&v, cwd, home) {
        None => {
            out.push(PromptSegment::Static(string_of(&v)));
            assert(seg_views(out@) =~= seq![SegView::Static(v@)]);
        },
        Some((a, b)) => {
            let ghost head = if a > 0 {
                seq![SegView::Static(v@.take(a as int))]
            } else {
                Seq::<SegView>::empty()
            };
            let ghost tail = if b < v.len() {
                seq![SegView::Static(v@.skip(b as int))]
            } else {
                Seq::<SegView>::empty()
            };
            if a > 0 {
                let pre = slice_chars(&v, 0, a);
                assert(pre@ =~= v@.take(a as int));
                out.push(PromptSegment::Static(string_of(&pre)));
            }
            assert(seg_views(out@) =~= head);
            let ghost mid = seg_views(out@);
            let piece = string_of(&slice_chars(&v, a, b));
            let parts = split_cwd_text_into_spans(piece.as_str());
            out.push(PromptSegment::Cwd(parts));
            assert(seg_views(out@) =~= mid.push(SegView::Cwd(split_cwd_spec(v@.subrange(a as int, b as int)))));
            let ghost mid2 = seg_views(out@);
            if b < v.len() {
                let post = slice_chars(&v, b, v.len());
                assert(post@ =~= v@.skip(b as int));
                out.push(PromptSegment::Static(string_of(&post)));
            }
            assert(seg_views(out@) =~= mid2 + tail);
            assert(seg_views(out@) =~= head + seq![SegView::Cwd(split_cwd_spec(v@.subrange(a as int, b as int)))] + tail);
        },
    }
    out
}

/// `cwd_statics` of `segs`.
fn cwd_statics_exec(segs: &Vec<PromptSegment>, cwd: &str, home: Option<&str>) -> (r: Vec<PromptSegment>)
    ensures
        seg_views(r@) == cwd_statics(seg_views(segs@), cwd@, opt_str(home)),
{
    let mut out: Vec<PromptSegment> = Vec::new();
    let mut i: usize = 0;
    while i < segs.len()
        invariant
            i <= segs.len(),
            seg_views(out@) == cwd_statics(seg_views(segs@.take(i as int)), cwd@, opt_str(home)),
        decreases segs.len() - i,
    {
        assert(seg_views(segs@.take(i + 1)).drop_last() =~= seg_views(segs@.take(i as int)));
        assert(seg_views(segs@.take(i + 1)).last() == segs@[i as int]@);
        let ghost before = seg_views(out@);
        match &segs[i] {
            PromptSegment::Static(t) => {
                let parts = split_static_span_by_cwd(t.as_str(), cwd, home);
                let mut k: usize = 0;
                while k < parts.len()
                    invariant
                        k <= parts.len(),
                        seg_views(out@) == before + seg_views(parts@.take(k as int)),
                    decreases parts.len() - k,
                {
                    let ghost b2 = seg_views(out@);
                    out.push(copy_segment(&parts[k]));
                    assert(seg_views(out@) =~= b2.push(parts@[k as int]@));
                    assert(seg_views(parts@.take(k + 1)) =~= seg_views(parts@.take(k as int)).push(parts@[k as int]@));
                    k = k + 1;
                }
                assert(parts@.take(parts.len() as int) =~= parts@);
            },
            other => {
                out.push(copy_segment(other));
                assert(seg_views(out@) =~= before.push(segs@[i as int]@));
            },
        }
        i = i + 1;
    }
    assert(segs@.take(segs.len() as int) =~= segs@);
    out
}

/// Every placeholder is non-empty.
proof fn lemma_placeholder_nonempty(n: nat)
    ensures
        placeholder_id(n).len() > 0,
{
    reveal_strlit("FLYT");
}

impl PromptStringBuilder {
    /// Every placeholder made so far is non-empty.
    pub open spec fn wf(&self) -> bool {
        forall|j: int| 0 <= j < self.times().len() ==> #[trigger] self.times()[j].0.len() > 0
    }

    /// The segments of a decoded prompt span `text` (see
    /// `expand_segments`): this builder's time placeholders, then the
    /// `animations` and `widgets` names, then, when it is given, the
    /// working directory `cwd` (with the home directory `home`).
    pub fn expand_span_to_segments(
        &self,
        text: &str,
        animations: &Vec<String>,
        widgets: &Vec<String>,
        cwd: Option<&str>,
        home: Option<&str>,
    ) -> (r: Vec<PromptSegment>)
        requires
            self.wf(),
            names_ok(animations@.map_values(|x: String| x@)),
            names_ok(widgets@.map_values(|x: String| x@)),
        ensures
            seg_views(r@) == expand_segments(
                text@,
                self.times(),
                animations@.map_values(|x: String| x@),
                widgets@.map_values(|x: String| x@),
                opt_str(cwd),
                opt_str(home),
            ),
    {
        let ghost tm = self.times();
        let mut ids: Vec<Vec<char>> = Vec::new();
        let mut fmts: Vec<String> = Vec::new();
        let mut i: usize = 0;
        while i < self.time_map.len()
            invariant
                i <= self.time_map.len(),
                tm == self.times(),
                ids@.map_values(|n: Vec<char>| n@) == tm.take(i as int).map_values(|e: (Seq<char>, Seq<char>)| e.0),
                fmts@.map_values(|f: String| f@) == tm.take(i as int).map_values(|e: (Seq<char>, Seq<char>)| e.1),
            decreases self.time_map.len() - i,
        {
            let ghost bi = ids@;
            let ghost bf = fmts@;
            let id = chars_of(self.time_map[i].0.as_str());
            let f = self.time_map[i].1.clone();
            assert(tm[i as int] == entry_view(self.time_map@[i as int]));
            ids.push(id);
            fmts.push(f);
            assert(ids@.map_values(|n: Vec<char>| n@) =~= bi.map_values(|n: Vec<char>| n@).push(id@));
            assert(fmts@.map_values(|f: String| f@) =~= bf.map_values(|f: String| f@).push(f@));
            assert(tm.take(i + 1).map_values(|e: (Seq<char>, Seq<char>)| e.0) =~= tm.take(i as int).map_values(|e: (Seq<char>, Seq<char>)| e.0).push(tm[i as int].0));
            assert(tm.take(i + 1).map_values(|e: (Seq<char>, Seq<char>)| e.1) =~= tm.take(i as int).map_values(|e: (Seq<char>, Seq<char>)| e.1).push(tm[i as int].1));
            i = i + 1;
        }
        assert(tm.take(tm.len() as int) =~= tm);
        let ghost id_views = tm.map_values(|e: (Seq<char>, Seq<char>)| e.0);
        assert forall|j: int| 0 <= j < id_views.len() implies #[trigger] id_views[j].len() > 0 by {
            assert(tm[j].0.len() > 0);
        }
        let t = chars_of(text);
        let mut p1: Vec<PromptSegment> = Vec::new();
        assert(seg_views(p1@) =~= Seq::<SegView>::empty());
        split_span_into(&mut p1, &t, &ids, NameKind::Time, &fmts);
        assert(Seq::<SegView>::empty() + split_span(t@, id_views, NameKind::Time, fmts@.map_values(|f: String| f@)) =~= split_span(t@, id_views, NameKind::Time, fmts@.map_values(|f: String| f@)));
        let anims = char_vecs(animations);
        let p2 = split_statics_exec(&p1, &anims, NameKind::Animation);
        let wids = char_vecs(widgets);
        let p3 = split_statics_exec(&p2, &wids, NameKind::Widget);
        match cwd {
            Some(c) => cwd_statics_exec(&p3, c, home),
            None => p3,
        }
    }
}

/// Byte length of the text of a working-directory segment, or -1 for any
/// other segment.
pub open spec fn cwd_len(s: SegView) -> int {
    match s {
        SegView::Cwd(p) => byte_len(p.flatten()) as int,
        _ => -1,
    }
}

/// The number of working-directory segments among `segs[0..m]`.
pub open spec fn cwd_count(segs: Seq<SegView>, m: int) -> nat
    decreases m,
{
    if m <= 0 {
        0
    } else {
        cwd_count(segs, m - 1) + if segs[m - 1] is Cwd {
            1nat
        } else {
            0nat
        }
    }
}

/// Index of the longest working-directory segment among `segs[0..m]`, the
/// last of equally long ones.
pub open spec fn longest_cwd(segs: Seq<SegView>, m: int) -> Option<int>
    decreases m,
{
    if m <= 0 {
        None
    } else {
        let prev = longest_cwd(segs, m - 1);
        if segs[m - 1] is Cwd {
            match prev {
                None => Some(m - 1),
                Some(b) => if cwd_len(segs[m - 1]) >= cwd_len(segs[b]) {
                    Some(m - 1)
                } else {
                    prev
                },
            }
        } else {
            prev
        }
    }
}

/// The segments of a prompt line with one working-directory segment left:
/// when several were found, all but the longest become static text.
pub open spec fn dedup_cwd(segs: Seq<SegView>) -> Seq<SegView> {
    if cwd_count(segs, segs.len() as int) <= 1 {
        segs
    } else {
        let b = longest_cwd(segs, segs.len() as int).unwrap();
        Seq::new(
            segs.len(),
            |i: int|
                match segs[i] {
                    SegView::Cwd(p) => if i != b {
                        SegView::Static(p.flatten())
                    } else {
                        segs[i]
                    },
                    other => other,
                },
        )
    }
}

/// The pieces of a working-directory segment joined.
fn joined(pieces: &Vec<String>) -> (r: Vec<char>)
    ensures
        r@ == pieces@.map_values(|x: String| x@).flatten(),
{
    let ghost ps = pieces@.map_values(|x: String| x@);
    let mut r: Vec<char> = Vec::new();
    let mut i: usize = 0;
    while i < pieces.len()
        invariant
            i <= pieces.len(),
            ps == pieces@.map_values(|x: String| x@),
            r@ == ps.take(i as int).flatten(),
        decreases pieces.len() - i,
    {
        let c = chars_of(pieces[i].as_str());
        append_chars(&mut r, &c);
        proof {
            ps.take(i as int).lemma_flatten_push(ps[i as int]);
            assert(ps.take(i + 1) =~= ps.take(i as int).push(ps[i as int]));
        }
        i = i + 1;
    }
    assert(ps.take(pieces.len() as int) =~= ps);
    r
}

/// Keep only the longest working-directory segment of a prompt line (see
/// `dedup_cwd`).
pub fn dedup_cwd_segments(segs: &mut Vec<PromptSegment>)
    ensures
        seg_views(final(segs)@) == dedup_cwd(seg_views(old(segs)@)),
{
    let ghost sv = seg_views(segs@);
    let mut count: usize = 0;
    let mut best: Option<(usize, usize)> = None;
    let mut i: usize = 0;
    while i < segs.len()
        invariant
            i <= segs.len(),
            sv == seg_views(segs@),
            count == cwd_count(sv, i as int),
            count <= i,
            (count > 0) == (best is Some),
            match (best, longest_cwd(sv, i as int)) {
                (Some(x), Some(y)) => x.0 as int == y && x.0 < i && x.1 as int == cwd_len(sv[y]),
                (None, None) => true,
                _ => false,
            },
        decreases segs.len() - i,
    {
        match &segs[i] {
            PromptSegment::Cwd(pieces) => {
                let j = joined(pieces);
                let s = string_of(&j);
                let len = str_byte_len(s.as_str());
                count = count + 1;
                best = match best {
                    None => Some((i, len)),
                    Some(b) => if len >= b.1 {
                        Some((i, len))
                    } else {
                        Some(b)
                    },
                };
            },
            _ => {},
        }
        i = i + 1;
    }
    if count <= 1 {
        return;
    }
    let b = match best {
        Some(x) => x.0,
        None => 0,
    };
    let mut out: Vec<PromptSegment> = Vec::new();
    let mut k: usize = 0;
    while k < segs.len()
        invariant
            k <= segs.len(),
            sv == seg_views(segs@),
            cwd_count(sv, sv.len() as int) >= 2,
            longest_cwd(sv, sv.len() as int) == Some(b as int),
            seg_views(out@) == dedup_cwd(sv).take(k as int),
        decreases segs.len() - k,
    {
        let ghost before = seg_views(out@);
        assert(sv[k as int] == segs@[k as int]@);
        let seg = match &segs[k] {
            PromptSegment::Cwd(pieces) => if k != b {
                PromptSegment::Static(string_of(&joined(pieces)))
            } else {
                copy_segment(&segs[k])
            },
            other => copy_segment(other),
        };
        assert(dedup_cwd(sv)[k as int] == seg@);
        out.push(seg);
        assert(seg_views(out@) =~= before.push(seg@));
        assert(dedup_cwd(sv).take(k + 1) =~= dedup_cwd(sv).take(k as int).push(dedup_cwd(sv)[k as int]));
        k = k + 1;
    }
    assert(dedup_cwd(sv).take(sv.len() as int) =~= dedup_cwd(sv));
    *segs = out;
}

/// The text that a segment stands for, names standing for themselves.
pub open spec fn seg_text(g: SegView, names: Seq<Seq<char>>) -> Seq<char> {
    match g {
        SegView::Static(s) => s,
        SegView::Time(f) => f,
        SegView::Animation(j) => names[j as int],
        SegView::Widget(j) => names[j as int],
        SegView::Cwd(p) => p.flatten(),
    }
}

/// The texts of segments, joined.
pub open spec fn segs_text(gs: Seq<SegView>, names: Seq<Seq<char>>) -> Seq<char>
    decreases gs.len(),
{
    if gs.len() == 0 {
        Seq::empty()
    } else {
        seg_text(gs[0], names) + segs_text(gs.drop_first(), names)
    }
}

proof fn lemma_segs_text_single(g: SegView, names: Seq<Seq<char>>)
    ensures
        segs_text(seq![g], names) == seg_text(g, names),
{
    let one = seq![g];
    assert(one[0] == g);
    assert(one.drop_first() =~= Seq::<SegView>::empty());
    assert(segs_text(one.drop_first(), names) == Seq::<char>::empty());
    assert(segs_text(one, names) == seg_text(one[0], names) + segs_text(one.drop_first(), names));
    assert(seg_text(g, names) + Seq::<char>::empty() =~= seg_text(g, names));
}

proof fn lemma_segs_text_concat(a: Seq<SegView>, b: Seq<SegView>, names: Seq<Seq<char>>)
    ensures
        segs_text(a + b, names) == segs_text(a, names) + segs_text(b, names),
    decreases a.len(),
{
    if a.len() == 0 {
        assert(a + b =~= b);
    } else {
        lemma_segs_text_concat(a.drop_first(), b, names);
        assert((a + b).drop_first() =~= a.drop_first() + b);
    }
}

/// Cutting a text at animation or widget names loses nothing: the pieces,
/// each name standing for itself, join back into the text.
pub proof fn law_split_keeps_text(t: Seq<char>, names: Seq<Seq<char>>, k: NameKind)
    requires
        names_ok(names),
        k != NameKind::Time,
    ensures
        segs_text(split_by(t, names, k, Seq::empty()), names) == t,
    decreases t.len(),
{
    let fmts = Seq::<Seq<char>>::empty();
    match earliest(t, names, names.len() as int) {
        None => {
            if t.len() > 0 {
                lemma_segs_text_single(SegView::Static(t), names);
            } else {
                assert(t =~= Seq::<char>::empty());
            }
        },
        Some((p, j)) => {
            lemma_earliest_found(t, names, names.len() as int);
            crate::text_ops::lemma_find_from_occurs(t, names[j], 0);
            let q = p + names[j].len();
            assert(names[j].len() > 0);
            let head = if p > 0 {
                seq![SegView::Static(t.take(p))]
            } else {
                Seq::empty()
            };
            law_split_keeps_text(t.skip(q), names, k);
            let rest = split_by(t.skip(q), names, k, fmts);
            let mid = head.push(named(k, fmts, j as nat));
            lemma_segs_text_concat(mid, rest, names);
            lemma_segs_text_concat(head, seq![named(k, fmts, j as nat)], names);
            assert(head.push(named(k, fmts, j as nat)) =~= head + seq![named(k, fmts, j as nat)]);
            lemma_segs_text_single(named(k, fmts, j as nat), names);
            if p > 0 {
                lemma_segs_text_single(SegView::Static(t.take(p)), names);
            } else {
                assert(segs_text(head, names) =~= Seq::<char>::empty());
            }
            assert(t.subrange(p, q) == names[j]);
            assert(t =~= t.take(p) + t.subrange(p, q) + t.skip(q));
        },
    }
}

/// `cwd_count` after `dedup_cwd`, for the segments before `m`.
proof fn lemma_dedup_count(segs: Seq<SegView>, m: int, b: int)
    requires
        0 <= m <= segs.len(),
        cwd_count(segs, segs.len() as int) > 1,
        longest_cwd(segs, segs.len() as int) == Some(b),
    ensures
        cwd_count(dedup_cwd(segs), m) == if b < m {
            1nat
        } else {
            0nat
        },
    decreases m,
{
    lemma_longest_is_cwd(segs, segs.len() as int);
    if m > 0 {
        lemma_dedup_count(segs, m - 1, b);
        let d = dedup_cwd(segs);
        assert(d.len() == segs.len());
        assert(d[m - 1] is Cwd <==> m - 1 == b);
        assert(cwd_count(d, m) == cwd_count(d, m - 1) + if d[m - 1] is Cwd {
            1nat
        } else {
            0nat
        });
    }
}

/// `longest_cwd` names a working-directory segment.
proof fn lemma_longest_is_cwd(segs: Seq<SegView>, m: int)
    requires
        0 <= m <= segs.len(),
    ensures
        longest_cwd(segs, m) matches Some(b) ==> 0 <= b < m && segs[b] is Cwd,
        cwd_count(segs, m) > 0 ==> longest_cwd(segs, m) is Some,
    decreases m,
{
    if m > 0 {
        lemma_longest_is_cwd(segs, m - 1);
    }
}

/// After `dedup_cwd_segments` a prompt line holds at most one
/// working-directory segment.
pub proof fn law_dedup_leaves_one_cwd(segs: Seq<SegView>)
    ensures
        cwd_count(dedup_cwd(segs), segs.len() as int) <= 1,
{
    if cwd_count(segs, segs.len() as int) > 1 {
        lemma_longest_is_cwd(segs, segs.len() as int);
        let b = longest_cwd(segs, segs.len() as int).unwrap();
        lemma_dedup_count(segs, segs.len() as int, b);
    }
}

/// Hexadecimal digits are distinct, and only zero is written `0`.
proof fn lemma_hex_digit(d: nat, e: nat)
    requires
        d < 16,
        e < 16,
    ensures
        hex_digit(d) == hex_digit(e) ==> d == e,
        hex_digit(d) == '0' ==> d == 0,
{
}

/// A hexadecimal numeral has at least one digit, two from 16 on, and no
/// leading zero unless it is zero.
proof fn lemma_hex_shape(n: nat)
    ensures
        hex(n).len() >= 1,
        n < 16 ==> hex(n).len() == 1,
        n >= 16 ==> hex(n).len() >= 2,
        n > 0 ==> hex(n)[0] != '0',
    decreases n,
{
    if n < 16 {
        lemma_hex_digit(n, 0);
    } else {
        lemma_hex_shape(n / 16);
        assert(hex(n)[0] == hex(n / 16)[0]);
    }
}

/// Distinct numbers have distinct hexadecimal numerals.
proof fn lemma_hex_injective(n: nat, m: nat)
    requires
        hex(n) == hex(m),
    ensures
        n == m,
    decreases n,
{
    lemma_hex_shape(n);
    lemma_hex_shape(m);
    if n < 16 && m < 16 {
        assert(hex(n)[0] == hex_digit(n));
        assert(hex(m)[0] == hex_digit(m));
        lemma_hex_digit(n, m);
    } else if n >= 16 && m >= 16 {
        assert(hex(n).last() == hex_digit(n % 16));
        assert(hex(m).last() == hex_digit(m % 16));
        lemma_hex_digit(n % 16, m % 16);
        assert(hex(n).drop_last() =~= hex(n / 16));
        assert(hex(m).drop_last() =~= hex(m / 16));
        lemma_hex_injective(n / 16, m / 16);
        assert(n == (n / 16) * 16 + n % 16);
        assert(m == (m / 16) * 16 + m % 16);
    } else {
        assert(hex(n).len() != hex(m).len());
    }
}

/// Different placeholder numbers give different placeholders, so every
/// time escape of a prompt gets a placeholder of its own.
pub proof fn law_placeholders_distinct(n: nat, m: nat)
    requires
        n != m,
    ensures
        placeholder_id(n) != placeholder_id(m),
{
    reveal_strlit("FLYT");
    let h1 = hex(n);
    let h2 = hex(m);
    lemma_hex_shape(n);
    lemma_hex_shape(m);
    let p1 = if h1.len() < 4 {
        Seq::new((4 - h1.len()) as nat, |_i: int| '0') + h1
    } else {
        h1
    };
    let p2 = if h2.len() < 4 {
        Seq::new((4 - h2.len()) as nat, |_i: int| '0') + h2
    } else {
        h2
    };
    assert(placeholder_id(n) == "FLYT"@ + p1);
    assert(placeholder_id(m) == "FLYT"@ + p2);
    if placeholder_id(n) == placeholder_id(m) {
        assert(p1 =~= placeholder_id(n).skip(4));
        assert(p2 =~= placeholder_id(m).skip(4));
        if h1.len() == h2.len() {
            if h1.len() < 4 {
                assert(h1 =~= p1.skip(4 - h1.len()));
                assert(h2 =~= p2.skip(4 - h2.len()));
            }
            lemma_hex_injective(n, m);
        } else if h1.len() < h2.len() {
            if h2.len() <= 4 {
                let i = 4 - h2.len();
                assert(p2[i] == h2[0]);
                assert(p1[i] == '0');
            }
        } else {
            if h1.len() <= 4 {
                let i = 4 - h1.len();
                assert(p1[i] == h1[0]);
                assert(p2[i] == '0');
            }
        }
    }
}

} // verus!
