//! Compact renderings of elapsed time: the fixed five-column age shown in
//! the history list, and the duration shown by the last-command widget.

use crate::palette::{Palette, PaletteStyleKind};
use crate::style::{patched, plain_style, Colour, TextStyle};
use crate::text_buffer::segment;
use crate::text_ops::slice_chars;
use crate::unicode::{
    append_chars, byte_len, byte_offset, chars_display_width, chars_of, decimal, decimal_chars, display_width, grapheme_starts,
    grapheme_starts_spec, str_byte_len, string_of,
};
use vstd::prelude::*;

verus! {

/// Seconds in the month used by the history list (a twelfth of a year of
/// 365.25 days, rounded).
pub const SECS_IN_MONTH: u64 = 2_628_003;

/// A span of time: whole seconds and the nanoseconds beyond them.
#[derive(Clone, Copy, Debug)]
pub struct Duration {
    secs: u64,
    nanos: u32,
}

impl Duration {
    #[verifier::type_invariant]
    spec fn inv(self) -> bool {
        self.nanos < 1_000_000_000
    }

    /// Whole seconds.
    pub closed spec fn secs(self) -> nat {
        self.secs as nat
    }

    /// Nanoseconds beyond the whole seconds.
    pub closed spec fn subsec(self) -> nat {
        self.nanos as nat
    }

    /// The span `secs` seconds plus `nanos` nanoseconds; nanoseconds beyond
    /// a second carry into the seconds.
    pub fn new(secs: u64, nanos: u32) -> (d: Duration)
        requires
            secs + nanos / 1_000_000_000 <= u64::MAX,
        ensures
            d.secs() == secs + nanos / 1_000_000_000,
            d.subsec() == nanos % 1_000_000_000,
    {
        Duration { secs: secs + (nanos / 1_000_000_000) as u64, nanos: nanos % 1_000_000_000 }
    }

    /// The span of `secs` whole seconds.
    pub fn from_secs(secs: u64) -> (d: Duration)
        ensures
            d.secs() == secs,
            d.subsec() == 0,
    {
        Duration { secs, nanos: 0 }
    }

    /// The span of `ms` milliseconds.
    pub fn from_millis(ms: u64) -> (d: Duration)
        ensures
            d.secs() == ms / 1000,
            d.subsec() == (ms % 1000) * 1_000_000,
    {
        Duration { secs: ms / 1000, nanos: ((ms % 1000) * 1_000_000) as u32 }
    }

    /// The span of `us` microseconds.
    pub fn from_micros(us: u64) -> (d: Duration)
        ensures
            d.secs() == us / 1_000_000,
            d.subsec() == (us % 1_000_000) * 1000,
    {
        Duration { secs: us / 1_000_000, nanos: ((us % 1_000_000) * 1000) as u32 }
    }

    /// The span of `ns` nanoseconds.
    pub fn from_nanos(ns: u64) -> (d: Duration)
        ensures
            d.secs() == ns / 1_000_000_000,
            d.subsec() == ns % 1_000_000_000,
    {
        Duration { secs: ns / 1_000_000_000, nanos: (ns % 1_000_000_000) as u32 }
    }

    /// Whole seconds.
    pub fn as_secs(&self) -> (s: u64)
        ensures
            s == self.secs(),
    {
        self.secs
    }

    /// Nanoseconds beyond the whole seconds, always below a billion.
    pub fn subsec_nanos(&self) -> (n: u32)
        ensures
            n == self.subsec(),
            n < 1_000_000_000,
    {
        proof {
            use_type_invariant(self);
        }
        self.nanos
    }
}

/// `s` right-aligned in a field of `w` columns: left-padded with spaces,
/// never cut.
pub open spec fn right_aligned(s: Seq<char>, w: nat) -> Seq<char> {
    if s.len() < w {
        Seq::new((w - s.len()) as nat, |_i: int| ' ') + s
    } else {
        s
    }
}

/// `n` in decimal with at least `w` digits, zero-padded on the left.
pub open spec fn zero_padded(n: nat, w: nat) -> Seq<char> {
    let d = decimal(n);
    if d.len() < w {
        Seq::new((w - d.len()) as nat, |_i: int| '0') + d
    } else {
        d
    }
}

/// `n` followed by `unit`, right-aligned in five columns.
pub open spec fn count_in_five(n: nat, unit: Seq<char>) -> Seq<char> {
    right_aligned(decimal(n) + unit, 5)
}

/// The five-column age of a span of `secs` seconds and `nanos` further
/// nanoseconds: ` now ` for nothing, then the count of the largest unit
/// among ns, us, ms, sec, min, hou(rs), day, Mon(ths) and Yea(rs) that fits,
/// and ` OLD ` beyond 99 years.
pub open spec fn five_chars(secs: nat, nanos: nat) -> Seq<char> {
    let m = SECS_IN_MONTH as nat;
    if secs == 0 {
        if nanos == 0 {
            seq![' ', 'n', 'o', 'w', ' ']
        } else if nanos < 1_000 {
            count_in_five(nanos, seq!['n', 's'])
        } else if nanos < 1_000_000 {
            count_in_five(nanos / 1_000, seq!['u', 's'])
        } else {
            count_in_five(nanos / 1_000_000, seq!['m', 's'])
        }
    } else if secs < 60 {
        count_in_five(secs, seq!['s', 'e', 'c'])
    } else if secs < 3600 {
        count_in_five(secs / 60, seq!['m', 'i', 'n'])
    } else if secs < 86400 {
        count_in_five(secs / 3600, seq!['h', 'o', 'u'])
    } else if secs < m {
        count_in_five(secs / 86400, seq!['d', 'a', 'y'])
    } else if secs < 12 * m {
        count_in_five(secs / m, seq!['M', 'o', 'n'])
    } else if secs <= 99 * 12 * m {
        count_in_five(secs / (12 * m), seq!['Y', 'e', 'a'])
    } else {
        seq![' ', 'O', 'L', 'D', ' ']
    }
}

/// The duration text of the last-command widget for `secs` seconds and
/// `nanos` further nanoseconds: days, hours and minutes from a day on;
/// hours, minutes and seconds from an hour; minutes and seconds from a
/// minute; seconds with tenths from ten seconds; seconds with milliseconds
/// from a second; then whole ms, us or ns.
pub open spec fn duration_text(secs: nat, nanos: nat) -> Seq<char> {
    let mins = secs / 60;
    let hours = secs / 3600;
    let days = secs / 86400;
    let ms = nanos / 1_000_000;
    if days > 0 {
        decimal(days) + seq!['d'] + zero_padded(hours % 24, 2) + seq!['h'] + zero_padded(
            mins % 60,
            2,
        ) + seq!['m']
    } else if hours > 0 {
        decimal(hours) + seq!['h'] + zero_padded(mins % 60, 2) + seq!['m'] + zero_padded(
            secs % 60,
            2,
        ) + seq!['s']
    } else if mins > 0 {
        decimal(mins) + seq!['m'] + zero_padded(secs % 60, 2) + seq!['s']
    } else if secs >= 10 {
        decimal(secs) + seq!['.'] + decimal(ms / 100) + seq!['s']
    } else if secs >= 1 {
        decimal(secs) + seq!['.'] + zero_padded(ms, 3) + seq!['s']
    } else if ms >= 1 {
        decimal(ms) + seq!['m', 's']
    } else if nanos >= 1_000 {
        decimal(nanos / 1_000) + seq!['u', 's']
    } else {
        decimal(nanos) + seq!['n', 's']
    }
}

/// Numbers below a thousand have at most three digits.
proof fn lemma_decimal_len_small(n: nat)
    ensures
        n < 10 ==> decimal(n).len() == 1,
        10 <= n < 100 ==> decimal(n).len() == 2,
        100 <= n < 1000 ==> decimal(n).len() == 3,
{
    reveal_with_fuel(decimal, 3);
}

/// `k` copies of `c`.
fn repeated(c: char, k: usize) -> (v: Vec<char>)
    ensures
        v@ == Seq::new(k as nat, |_i: int| c),
{
    let mut v: Vec<char> = Vec::new();
    let mut i: usize = 0;
    while i < k
        invariant
            i <= k,
            v@ == Seq::new(i as nat, |_i: int| c),
        decreases k - i,
    {
        v.push(c);
        i = i + 1;
        assert(v@ =~= Seq::new(i as nat, |_i: int| c));
    }
    v
}

/// `n` in decimal, zero-padded to `w` digits.
fn zero_padded_chars(n: u64, w: usize) -> (v: Vec<char>)
    ensures
        v@ == zero_padded(n as nat, w as nat),
{
    let d = decimal_chars(n);
    if d.len() < w {
        let mut v = repeated('0', w - d.len());
        append_chars(&mut v, &d);
        v
    } else {
        d
    }
}

/// `n` and `unit`, right-aligned in five columns.
fn count_in_five_chars(n: u64, unit: Vec<char>) -> (v: Vec<char>)
    ensures
        v@ == count_in_five(n as nat, unit@),
{
    let mut s = decimal_chars(n);
    append_chars(&mut s, &unit);
    if s.len() < 5 {
        let mut v = repeated(' ', 5 - s.len());
        append_chars(&mut v, &s);
        v
    } else {
        s
    }
}

/// Format a duration as exactly five columns for the history list.
pub fn duration_to_5chars(duration: Duration) -> (s: String)
    ensures
        s@ == five_chars(duration.secs(), duration.subsec()),
        s@.len() == 5,
{
    proof {
        use_type_invariant(&duration);
    }
    let secs = duration.as_secs();
    let ns = duration.subsec_nanos() as u64;
    let m = SECS_IN_MONTH;
    let v: Vec<char> = if secs == 0 {
        if ns == 0 {
            vec![' ', 'n', 'o', 'w', ' ']
        } else if ns < 1_000 {
            count_in_five_chars(ns, vec!['n', 's'])
        } else if ns < 1_000_000 {
            count_in_five_chars(ns / 1_000, vec!['u', 's'])
        } else {
            count_in_five_chars(ns / 1_000_000, vec!['m', 's'])
        }
    } else if secs < 60 {
        count_in_five_chars(secs, vec!['s', 'e', 'c'])
    } else if secs < 3600 {
        count_in_five_chars(secs / 60, vec!['m', 'i', 'n'])
    } else if secs < 86400 {
        count_in_five_chars(secs / 3600, vec!['h', 'o', 'u'])
    } else if secs < m {
        count_in_five_chars(secs / 86400, vec!['d', 'a', 'y'])
    } else if secs < 12 * m {
        count_in_five_chars(secs / m, vec!['M', 'o', 'n'])
    } else if secs <= 99 * 12 * m {
        count_in_five_chars(secs / (12 * m), vec!['Y', 'e', 'a'])
    } else {
        vec![' ', 'O', 'L', 'D', ' ']
    };
    proof {
        let n: nat = if secs == 0 {
            if ns < 1_000 {
                ns as nat
            } else if ns < 1_000_000 {
                (ns / 1_000) as nat
            } else {
                (ns / 1_000_000) as nat
            }
        } else if secs < 60 {
            secs as nat
        } else if secs < 3600 {
            (secs / 60) as nat
        } else if secs < 86400 {
            (secs / 3600) as nat
        } else if secs < m {
            (secs / 86400) as nat
        } else if secs < 12 * m {
            (secs / m) as nat
        } else {
            (secs as nat / (12 * m as nat)) as nat
        };
        lemma_decimal_len_small(n);
    }
    string_of(&v)
}

/// Format a duration for the last-command-duration prompt widget.
pub fn format_duration(duration: Duration) -> (s: String)
    ensures
        s@ == duration_text(duration.secs(), duration.subsec()),
{
    proof {
        use_type_invariant(&duration);
    }
    let secs = duration.as_secs();
    let nanos = duration.subsec_nanos() as u64;
    let mins = secs / 60;
    let hours = secs / 3600;
    let days = secs / 86400;
    let ms = nanos / 1_000_000;
    let mut v: Vec<char>;
    if days > 0 {
        v = decimal_chars(days);
        v.push('d');
        append_chars(&mut v, &zero_padded_chars(hours % 24, 2));
        v.push('h');
        append_chars(&mut v, &zero_padded_chars(mins % 60, 2));
        v.push('m');
    } else if hours > 0 {
        v = decimal_chars(hours);
        v.push('h');
        append_chars(&mut v, &zero_padded_chars(mins % 60, 2));
        v.push('m');
        append_chars(&mut v, &zero_padded_chars(secs % 60, 2));
        v.push('s');
    } else if mins > 0 {
        v = decimal_chars(mins);
        v.push('m');
        append_chars(&mut v, &zero_padded_chars(secs % 60, 2));
        v.push('s');
    } else if secs >= 10 {
        v = decimal_chars(secs);
        v.push('.');
        append_chars(&mut v, &decimal_chars(ms / 100));
        v.push('s');
    } else if secs >= 1 {
        v = decimal_chars(secs);
        v.push('.');
        append_chars(&mut v, &zero_padded_chars(ms, 3));
        v.push('s');
    } else if ms >= 1 {
        v = decimal_chars(ms);
        v.push('m');
        v.push('s');
    } else if nanos >= 1_000 {
        v = decimal_chars(nanos / 1_000);
        v.push('u');
        v.push('s');
    } else {
        v = decimal_chars(nanos);
        v.push('n');
        v.push('s');
    }
    let ghost want = duration_text(secs as nat, nanos as nat);
    assert(v@ =~= want);
    string_of(&v)
}

/// The five-column age, at time `now` (seconds since the epoch), of an
/// event at time `ts`; an event in the future counts as ` now `.
pub fn ts_to_timeago_string_5chars(ts: u64, now: u64) -> (s: String)
    ensures
        s@ == five_chars(if now >= ts { (now - ts) as nat } else { 0 }, 0),
        s@.len() == 5,
{
    duration_to_5chars(Duration::from_secs(now.saturating_sub(ts)))
}

/// How strictly a fuzzy match is filtered.
#[derive(Debug, Clone, Copy, PartialEq, Eq, Structural)]
pub enum FuzzyMatchThreshold {
    /// Lower score thresholds.
    Medium,
    /// Higher thresholds, and every letter and digit of the pattern must
    /// occur among the matched characters.
    High,
}

/// The least score a fuzzy match of a pattern of `len` bytes must reach.
pub open spec fn score_threshold(len: nat, t: FuzzyMatchThreshold) -> int {
    match t {
        FuzzyMatchThreshold::Medium => if len < 1 {
            0
        } else if len < 2 {
            2
        } else if len < 3 {
            10
        } else if len < 5 {
            25
        } else if len < 9 {
            35
        } else {
            45
        },
        FuzzyMatchThreshold::High => if len < 1 {
            0
        } else if len < 2 {
            2
        } else if len < 3 {
            20
        } else if len < 5 {
            50
        } else if len < 9 {
            70
        } else {
            90
        },
    }
}

/// The high threshold asks twice the medium score of a pattern of two or
/// more bytes, and the same score of a shorter one.
pub proof fn law_high_threshold_doubles_medium(len: nat)
    ensures
        score_threshold(len, FuzzyMatchThreshold::High) == if len >= 2 {
            2 * score_threshold(len, FuzzyMatchThreshold::Medium)
        } else {
            score_threshold(len, FuzzyMatchThreshold::Medium)
        },
        score_threshold(len, FuzzyMatchThreshold::High) >= score_threshold(len, FuzzyMatchThreshold::Medium),
{
}

/// A longer pattern never needs a lower score.
pub proof fn law_threshold_grows_with_length(a: nat, b: nat, t: FuzzyMatchThreshold)
    requires
        a <= b,
    ensures
        score_threshold(a, t) <= score_threshold(b, t),
{
}

/// The least scores under the high threshold: 0 for an empty pattern, 2
/// for one byte, 20 for two, 50 for three or four, 70 for five to eight
/// and 90 from nine bytes on.
pub proof fn law_high_threshold_steps(len: nat)
    ensures
        len == 0 ==> score_threshold(len, FuzzyMatchThreshold::High) == 0,
        len == 1 ==> score_threshold(len, FuzzyMatchThreshold::High) == 2,
        len == 2 ==> score_threshold(len, FuzzyMatchThreshold::High) == 20,
        3 <= len <= 4 ==> score_threshold(len, FuzzyMatchThreshold::High) == 50,
        5 <= len <= 8 ==> score_threshold(len, FuzzyMatchThreshold::High) == 70,
        len >= 9 ==> score_threshold(len, FuzzyMatchThreshold::High) == 90,
{
}

/// The least score a fuzzy match of a pattern of `pattern_len` bytes must
/// reach.
pub fn fuzzy_pattern_score_threshold(pattern_len: usize, threshold: FuzzyMatchThreshold) -> (r: i64)
    ensures
        r == score_threshold(pattern_len as nat, threshold),
{
    match threshold {
        FuzzyMatchThreshold::Medium => if pattern_len < 1 {
            0
        } else if pattern_len < 2 {
            2
        } else if pattern_len < 3 {
            10
        } else if pattern_len < 5 {
            25
        } else if pattern_len < 9 {
            35
        } else {
            45
        },
        FuzzyMatchThreshold::High => if pattern_len < 1 {
            0
        } else if pattern_len < 2 {
            2
        } else if pattern_len < 3 {
            20
        } else if pattern_len < 5 {
            50
        } else if pattern_len < 9 {
            70
        } else {
            90
        },
    }
}

/// Whether `char::is_alphanumeric` holds of `c` (Unicode letters and
/// numbers).
pub uninterp spec fn alphanumeric(c: char) -> bool;

/// The characters of `char::to_lowercase` of `c`.
pub uninterp spec fn lower(c: char) -> Seq<char>;

/// `char::is_alphanumeric`.
#[verifier::external_body]
fn is_alphanumeric(c: char) -> (b: bool)
    ensures
        b == alphanumeric(c),
{
    c.is_alphanumeric()
}

/// `char::to_lowercase`, collected. Its documentation promises one or more
/// characters.
#[verifier::external_body]
fn char_to_lowercase(c: char) -> (v: Vec<char>)
    ensures
        v@ == lower(c),
        v@.len() > 0,
{
    c.to_lowercase().collect()
}

/// The letters and digits of `s`, lowercased, in order.
pub open spec fn lowered_alnum(s: Seq<char>) -> Seq<char>
    decreases s.len(),
{
    if s.len() == 0 {
        Seq::empty()
    } else {
        lowered_alnum(s.drop_last()) + if alphanumeric(s.last()) {
            lower(s.last())
        } else {
            Seq::empty()
        }
    }
}

/// Every letter and digit of `pattern`, lowercased (the first character of
/// its lowercase form), occurs in `hay`.
pub open spec fn all_alnum_in(pattern: Seq<char>, hay: Seq<char>) -> bool {
    forall|i: int| 0 <= i < pattern.len() && alphanumeric(#[trigger] pattern[i]) ==> hay.contains(lower(pattern[i])[0])
}

/// The characters of `h` at the positions `idx` that lie inside it.
pub open spec fn picked(h: Seq<char>, idx: Seq<usize>) -> Seq<char>
    decreases idx.len(),
{
    if idx.len() == 0 {
        Seq::empty()
    } else if (idx.last() as int) < h.len() {
        picked(h, idx.drop_last()).push(h[idx.last() as int])
    } else {
        picked(h, idx.drop_last())
    }
}

/// The letters and digits of `v`, lowercased.
fn lowered_alnum_exec(v: &Vec<char>) -> (r: Vec<char>)
    ensures
        r@ == lowered_alnum(v@),
{
    let mut r: Vec<char> = Vec::new();
    let mut i: usize = 0;
    while i < v.len()
        invariant
            i <= v.len(),
            r@ == lowered_alnum(v@.take(i as int)),
        decreases v.len() - i,
    {
        assert(v@.take(i + 1).drop_last() =~= v@.take(i as int));
        let c = v[i];
        if is_alphanumeric(c) {
            append_chars(&mut r, &char_to_lowercase(c));
        } else {
            assert(r@ + Seq::<char>::empty() =~= r@);
        }
        i = i + 1;
    }
    assert(v@.take(v.len() as int) =~= v@);
    r
}

/// Whether `v` holds `c`.
fn holds(v: &Vec<char>, c: char) -> (b: bool)
    ensures
        b == v@.contains(c),
{
    let mut i: usize = 0;
    while i < v.len()
        invariant
            i <= v.len(),
            forall|j: int| 0 <= j < i ==> v@[j] != c,
        decreases v.len() - i,
    {
        if v[i] == c {
            return true;
        }
        i = i + 1;
    }
    false
}

/// Whether every letter and digit of `pattern` occurs, lowercased, in `hay`.
fn all_alnum_in_exec(pattern: &str, hay: &Vec<char>) -> (b: bool)
    ensures
        b == all_alnum_in(pattern@, hay@),
{
    let p = chars_of(pattern);
    let mut i: usize = 0;
    while i < p.len()
        invariant
            i <= p.len(),
            p@ == pattern@,
            forall|j: int| 0 <= j < i && alphanumeric(#[trigger] p@[j]) ==> hay@.contains(lower(p@[j])[0]),
        decreases p.len() - i,
    {
        let c = p[i];
        if is_alphanumeric(c) {
            let l = char_to_lowercase(c);
            if !holds(hay, l[0]) {
                return false;
            }
        }
        i = i + 1;
    }
    true
}

/// Whether every letter and digit of `pattern` occurs, lowercased, among
/// the letters and digits of `haystack`.
pub fn verify_all_alphanumeric_chars_in_haystack(pattern: &str, haystack: &str) -> (b: bool)
    ensures
        b == all_alnum_in(pattern@, lowered_alnum(haystack@)),
{
    let hay = lowered_alnum_exec(&chars_of(haystack));
    all_alnum_in_exec(pattern, &hay)
}

/// Whether every letter and digit of `pattern` occurs, lowercased, among
/// the letters and digits of `haystack` at the matched positions
/// `indices` (character positions; those past the end are ignored).
pub fn verify_all_alphanumeric_chars_in_matching_indices(pattern: &str, haystack: &str, indices: &Vec<usize>) -> (b: bool)
    ensures
        b == all_alnum_in(pattern@, lowered_alnum(picked(haystack@, indices@))),
{
    let h = chars_of(haystack);
    let mut m: Vec<char> = Vec::new();
    let mut i: usize = 0;
    while i < indices.len()
        invariant
            i <= indices.len(),
            h@ == haystack@,
            m@ == picked(h@, indices@.take(i as int)),
        decreases indices.len() - i,
    {
        assert(indices@.take(i + 1).drop_last() =~= indices@.take(i as int));
        let k = indices[i];
        if k < h.len() {
            m.push(h[k]);
        }
        i = i + 1;
    }
    assert(indices@.take(indices.len() as int) =~= indices@);
    let hay = lowered_alnum_exec(&m);
    all_alnum_in_exec(pattern, &hay)
}

/// What is left of a fuzzy matcher's score for `candidate` against
/// `pattern`: none below the pattern's threshold, and with the `High`
/// threshold none unless every letter and digit of the pattern occurs in
/// the candidate.
pub fn fuzzy_match_with_threshold(matched: Option<i64>, candidate: &str, pattern: &str, threshold: FuzzyMatchThreshold) -> (r: Option<i64>)
    ensures
        r == match matched {
            Some(score) => if score >= score_threshold(crate::unicode::byte_len(pattern@), threshold) && (
            threshold == FuzzyMatchThreshold::High ==> all_alnum_in(pattern@, lowered_alnum(candidate@))) {
                Some(score)
            } else {
                None
            },
            None => None,
        },
{
    let t = fuzzy_pattern_score_threshold(str_byte_len(pattern), threshold);
    match matched {
        None => None,
        Some(score) => {
            if score < t {
                return None;
            }
            if threshold == FuzzyMatchThreshold::High && !verify_all_alphanumeric_chars_in_haystack(pattern, candidate) {
                return None;
            }
            Some(score)
        },
    }
}

/// What is left of a fuzzy matcher's score and matched positions for
/// `candidate` against `pattern`: none below the pattern's threshold, and
/// with the `High` threshold none unless every letter and digit of the
/// pattern occurs at the matched positions.
pub fn fuzzy_indices_with_threshold(
    matched: Option<(i64, Vec<usize>)>,
    candidate: &str,
    pattern: &str,
    threshold: FuzzyMatchThreshold,
) -> (r: Option<(i64, Vec<usize>)>)
    ensures
        match matched {
            Some(m) => if m.0 >= score_threshold(crate::unicode::byte_len(pattern@), threshold) && (threshold
                == FuzzyMatchThreshold::High ==> all_alnum_in(pattern@, lowered_alnum(picked(candidate@, m.1@)))) {
                r matches Some(x) && x.0 == m.0 && x.1@ == m.1@
            } else {
                r is None
            },
            None => r is None,
        },
{
    let t = fuzzy_pattern_score_threshold(str_byte_len(pattern), threshold);
    match matched {
        None => None,
        Some((score, indices)) => {
            if score < t {
                return None;
            }
            if threshold == FuzzyMatchThreshold::High && !verify_all_alphanumeric_chars_in_matching_indices(pattern, candidate, &indices) {
                return None;
            }
            Some((score, indices))
        },
    }
}

/// A run of text drawn in one style.
#[derive(Debug, Clone, PartialEq, Eq)]
pub struct StyledSpan {
    pub content: String,
    pub style: TextStyle,
}

/// One line of styled text.
#[derive(Debug, Clone, PartialEq, Eq)]
pub struct StyledLine {
    pub spans: Vec<StyledSpan>,
}

/// A span as the text it holds and its style.
pub type SpanView = (Seq<char>, TextStyle);

/// The spans of a list as text and style.
pub open spec fn spans_view(v: Seq<StyledSpan>) -> Seq<SpanView> {
    v.map_values(|s: StyledSpan| (s.content@, s.style))
}

/// The grapheme clusters of a text, in order.
pub open spec fn graphemes_of(s: Seq<char>) -> Seq<Seq<char>> {
    let g = grapheme_starts_spec(s);
    Seq::new(g.len(), |i: int| segment(s, g, i))
}

/// The texts of `gs` one after another.
pub open spec fn concat_all(gs: Seq<Seq<char>>) -> Seq<char>
    decreases gs.len(),
{
    if gs.len() == 0 {
        Seq::empty()
    } else {
        concat_all(gs.drop_last()) + gs.last()
    }
}

/// Display width of a span's text.
pub open spec fn span_width(s: SpanView) -> nat {
    display_width(s.0) as nat
}

/// Total display width of a list of spans.
pub open spec fn spans_width(v: Seq<SpanView>) -> nat
    decreases v.len(),
{
    if v.len() == 0 {
        0
    } else {
        spans_width(v.drop_last()) + span_width(v.last())
    }
}

/// The leading clusters of `gs` that fit, one by one, in `n` columns.
pub open spec fn fitting_front(gs: Seq<Seq<char>>, n: int) -> Seq<Seq<char>>
    decreases gs.len(),
{
    if gs.len() == 0 || display_width(gs[0]) > n {
        Seq::empty()
    } else {
        seq![gs[0]] + fitting_front(gs.drop_first(), n - display_width(gs[0]))
    }
}

/// The trailing clusters of `gs` that fit, one by one from the end, in `n`
/// columns, in their order.
pub open spec fn fitting_back(gs: Seq<Seq<char>>, n: int) -> Seq<Seq<char>>
    decreases gs.len(),
{
    if gs.len() == 0 || display_width(gs.last()) > n {
        Seq::empty()
    } else {
        fitting_back(gs.drop_last(), n - display_width(gs.last())).push(gs.last())
    }
}

/// Each cluster as a span of its own in `style`.
pub open spec fn cluster_spans(gs: Seq<Seq<char>>, style: TextStyle) -> Seq<SpanView> {
    gs.map_values(|g: Seq<char>| (g, style))
}

/// The first `n` columns of a list of spans: whole spans while they fit,
/// then the clusters of the next span that still fit, each as a span of
/// its own.
pub open spec fn prefix_spans(v: Seq<SpanView>, n: int) -> Seq<SpanView>
    decreases v.len(),
{
    if n <= 0 || v.len() == 0 {
        Seq::empty()
    } else if span_width(v[0]) <= n {
        seq![v[0]] + prefix_spans(v.drop_first(), n - span_width(v[0]))
    } else {
        cluster_spans(fitting_front(graphemes_of(v[0].0), n), v[0].1)
    }
}

/// The last `n` columns of a list of spans, the mirror of `prefix_spans`.
pub open spec fn suffix_spans(v: Seq<SpanView>, n: int) -> Seq<SpanView>
    decreases v.len(),
{
    if n <= 0 || v.len() == 0 {
        Seq::empty()
    } else if span_width(v.last()) <= n {
        suffix_spans(v.drop_last(), n - span_width(v.last())).push(v.last())
    } else {
        cluster_spans(fitting_back(graphemes_of(v.last().0), n), v.last().1)
    }
}

/// The grapheme clusters of a text, each as its own run of characters.
fn grapheme_strings(v: &Vec<char>) -> (r: Vec<Vec<char>>)
    requires
        byte_len(v@) <= usize::MAX,
    ensures
        r@.map_values(|x: Vec<char>| x@) == graphemes_of(v@),
        concat_all(graphemes_of(v@)) == v@,
{
    let g = grapheme_starts(v);
    let ghost gs = grapheme_starts_spec(v@);
    let mut out: Vec<Vec<char>> = Vec::new();
    let mut i: usize = 0;
    while i < g.len()
        invariant
            i <= g.len(),
            g@.map_values(|k: usize| k as int) == gs,
            gs == grapheme_starts_spec(v@),
            forall|a: int, b: int| 0 <= a < b < g.len() ==> g[a] < g[b],
            forall|a: int| 0 <= a < g.len() ==> g[a] < v.len(),
            out@.map_values(|x: Vec<char>| x@) == Seq::new(i as nat, |k: int| segment(v@, gs, k)),
            v.len() > 0 ==> g.len() > 0 && g[0] == 0,
            v.len() == 0 ==> g.len() == 0,
            concat_all(Seq::new(i as nat, |k: int| segment(v@, gs, k))) == v@.take(
                if i < g.len() { gs[i as int] } else { v.len() as int },
            ),
        decreases g.len() - i,
    {
        let end = if i + 1 < g.len() { g[i + 1] } else { v.len() };
        assert(gs[i as int] == g[i as int] as int);
        assert(i + 1 < g.len() ==> gs[i + 1] == g[i + 1] as int);
        let piece = slice_chars(v, g[i], end);
        assert(gs.len() == g.len());
        assert(piece@ == segment(v@, gs, i as int));
        let ghost before = out@;
        out.push(piece);
        assert(before.map_values(|x: Vec<char>| x@) == Seq::new(i as nat, |k: int| segment(v@, gs, k)));
        assert(out@ == before.push(piece));
        assert(out@.map_values(|x: Vec<char>| x@) =~= before.map_values(|x: Vec<char>| x@).push(piece@));
        assert(out@.map_values(|x: Vec<char>| x@) =~= Seq::new((i + 1) as nat, |k: int| segment(v@, gs, k)));
        assert(Seq::new((i + 1) as nat, |k: int| segment(v@, gs, k)).drop_last() =~= Seq::new(
            i as nat,
            |k: int| segment(v@, gs, k),
        ));
        assert(v@.take(gs[i as int]) + v@.subrange(gs[i as int], end as int) =~= v@.take(end as int));
        i = i + 1;
    }
    assert(g@.len() == gs.len());
    proof {
        if v.len() == 0 {
            assert(v@ =~= Seq::<char>::empty());
        } else {
            assert(gs[0] == 0);
            assert(v@.take(0) =~= Seq::<char>::empty());
        }
        assert(v@.take(v.len() as int) =~= v@);
    }
    out
}

/// The grapheme clusters of a string.
pub fn graphemes_of_str(s: &String) -> (r: Vec<Vec<char>>)
    ensures
        r@.map_values(|x: Vec<char>| x@) == graphemes_of(s@),
        concat_all(graphemes_of(s@)) == s@,
{
    let n = str_byte_len(s.as_str());
    let v = chars_of(s.as_str());
    grapheme_strings(&v)
}

/// Display width of a span's text.
fn span_width_exec(s: &StyledSpan) -> (w: usize)
    ensures
        w == span_width((s.content@, s.style)),
{
    chars_display_width(&chars_of(s.content.as_str()))
}

/// A span holding `text` in `style`.
fn make_span(text: &Vec<char>, style: TextStyle) -> (s: StyledSpan)
    ensures
        s.content@ == text@,
        s.style == style,
{
    StyledSpan { content: string_of(text), style }
}

/// A copy of a span.
fn copy_span(s: &StyledSpan) -> (r: StyledSpan)
    ensures
        r.content@ == s.content@,
        r.style == s.style,
{
    StyledSpan { content: s.content.clone(), style: s.style }
}

/// Total display width of a list of spans.
pub fn vec_spans_width(spans: &Vec<StyledSpan>) -> (w: usize)
    requires
        spans_width(spans_view(spans@)) <= usize::MAX,
    ensures
        w == spans_width(spans_view(spans@)),
{
    let ghost v = spans_view(spans@);
    let mut total: usize = 0;
    let mut i: usize = 0;
    while i < spans.len()
        invariant
            i <= spans.len(),
            v == spans_view(spans@),
            spans_width(v) <= usize::MAX,
            total == spans_width(v.take(i as int)),
        decreases spans.len() - i,
    {
        assert(v.take(i + 1).drop_last() =~= v.take(i as int));
        proof {
            lemma_spans_width_prefix(v, i + 1);
        }
        total = total + span_width_exec(&spans[i]);
        i = i + 1;
    }
    assert(v.take(spans.len() as int) =~= v);
    total
}

/// The width of a prefix is at most the width of the whole.
proof fn lemma_spans_width_prefix(v: Seq<SpanView>, k: int)
    requires
        0 <= k <= v.len(),
    ensures
        spans_width(v.take(k)) <= spans_width(v),
    decreases v.len() - k,
{
    if k < v.len() {
        lemma_spans_width_prefix(v, k + 1);
        assert(v.take(k + 1).drop_last() =~= v.take(k));
    } else {
        assert(v.take(k) =~= v);
    }
}

/// Append copies of `more` to `out`.
pub fn extend_spans(out: &mut Vec<StyledSpan>, more: &Vec<StyledSpan>)
    ensures
        spans_view(final(out)@) == spans_view(old(out)@) + spans_view(more@),
{
    let ghost start = spans_view(out@);
    let mut i: usize = 0;
    while i < more.len()
        invariant
            i <= more.len(),
            spans_view(out@) == start + spans_view(more@.take(i as int)),
        decreases more.len() - i,
    {
        let ghost before = out@;
        out.push(copy_span(&more[i]));
        assert(spans_view(out@) =~= spans_view(before).push((more@[i as int].content@, more@[i as int].style)));
        assert(spans_view(more@.take(i + 1)) =~= spans_view(more@.take(i as int)).push(
            (more@[i as int].content@, more@[i as int].style),
        ));
        i = i + 1;
    }
    assert(more@.take(more.len() as int) =~= more@);
}

/// The first `n` columns of `spans`: whole spans while they fit, then the
/// grapheme clusters of the next span that still fit, each as a span of its
/// own in that span's style.
pub fn take_prefix_of_spans(spans: &Vec<StyledSpan>, n: usize) -> (r: Vec<StyledSpan>)
    ensures
        spans_view(r@) == prefix_spans(spans_view(spans@), n as int),
{
    let ghost v = spans_view(spans@);
    let mut out: Vec<StyledSpan> = Vec::new();
    let mut m: usize = n;
    let mut i: usize = 0;
    assert(v.skip(0) =~= v);
    assert(spans_view(out@) =~= Seq::<SpanView>::empty());
    while i < spans.len() && m > 0
        invariant
            i <= spans.len(),
            v == spans_view(spans@),
            spans_view(out@) + prefix_spans(v.skip(i as int), m as int) == prefix_spans(v, n as int),
        decreases spans.len() - i,
    {
        let w = span_width_exec(&spans[i]);
        assert(v.skip(i as int)[0] == v[i as int]);
        assert(v.skip(i as int).drop_first() =~= v.skip(i + 1));
        if w <= m {
            let ghost before = spans_view(out@);
            out.push(copy_span(&spans[i]));
            assert(spans_view(out@) =~= before.push(v[i as int]));
            assert(before + (seq![v[i as int]] + prefix_spans(v.skip(i + 1), (m - w) as int)) =~= before.push(
                v[i as int],
            ) + prefix_spans(v.skip(i + 1), (m - w) as int));
            m = m - w;
            i = i + 1;
        } else {
            let style = spans[i].style;
            let gs = graphemes_of_str(&spans[i].content);
            let ghost gv = gs@.map_values(|x: Vec<char>| x@);
            assert(gv.skip(0) =~= gv);
            let mut j: usize = 0;
            let mut go = true;
            while j < gs.len() && go
                invariant
                    j <= gs.len(),
                    gv == gs@.map_values(|x: Vec<char>| x@),
                    go ==> spans_view(out@) + cluster_spans(fitting_front(gv.skip(j as int), m as int), style)
                        == prefix_spans(v, n as int),
                    !go ==> spans_view(out@) == prefix_spans(v, n as int),
                decreases gs.len() - j + (if go { 1int } else { 0int }),
            {
                let gw = chars_display_width(&gs[j]);
                assert(gv.skip(j as int)[0] == gs@[j as int]@);
                assert(gv.skip(j as int).drop_first() =~= gv.skip(j + 1));
                if gw <= m {
                    let ghost before = spans_view(out@);
                    out.push(make_span(&gs[j], style));
                    assert(spans_view(out@) =~= before.push((gs@[j as int]@, style)));
                    let ghost rest = fitting_front(gv.skip(j + 1), (m - gw) as int);
                    assert(cluster_spans(seq![gs@[j as int]@] + rest, style) =~= seq![(gs@[j as int]@, style)]
                        + cluster_spans(rest, style));
                    assert(before + (seq![(gs@[j as int]@, style)] + cluster_spans(rest, style)) =~= before.push(
                        (gs@[j as int]@, style),
                    ) + cluster_spans(rest, style));
                    m = m - gw;
                    j = j + 1;
                } else {
                    assert(cluster_spans(Seq::<Seq<char>>::empty(), style) =~= Seq::<SpanView>::empty());
                    assert(spans_view(out@) + Seq::<SpanView>::empty() =~= spans_view(out@));
                    go = false;
                }
            }
            if go {
                assert(gv.skip(j as int) =~= Seq::<Seq<char>>::empty());
                assert(cluster_spans(Seq::<Seq<char>>::empty(), style) =~= Seq::<SpanView>::empty());
                assert(spans_view(out@) + Seq::<SpanView>::empty() =~= spans_view(out@));
            }
            return out;
        }
    }
    assert(spans_view(out@) + Seq::<SpanView>::empty() =~= spans_view(out@));
    out
}

/// The last `n` columns of `spans`, the mirror of `take_prefix_of_spans`.
pub fn take_suffix_of_spans(spans: &Vec<StyledSpan>, n: usize) -> (r: Vec<StyledSpan>)
    ensures
        spans_view(r@) == suffix_spans(spans_view(spans@), n as int),
{
    let ghost v = spans_view(spans@);
    let mut m: usize = n;
    let mut i: usize = spans.len();
    let mut partial: Vec<StyledSpan> = Vec::new();
    let mut stopped = false;
    assert(v.take(i as int) =~= v);
    assert(v.skip(i as int) =~= Seq::<SpanView>::empty());
    while i > 0 && m > 0 && !stopped
        invariant
            i <= spans.len(),
            v == spans_view(spans@),
            !stopped ==> suffix_spans(v.take(i as int), m as int) + v.skip(i as int) == suffix_spans(v, n as int),
            !stopped ==> partial@.len() == 0,
            stopped ==> spans_view(partial@) + v.skip(i as int) == suffix_spans(v, n as int),
        decreases i + (if stopped { 0int } else { 1int }),
    {
        let w = span_width_exec(&spans[i - 1]);
        assert(v.take(i as int).drop_last() =~= v.take(i - 1));
        assert(v.take(i as int).last() == v[i - 1]);
        if w <= m {
            let ghost pre = suffix_spans(v.take(i - 1), (m - w) as int);
            assert(pre.push(v[i - 1]) + v.skip(i as int) =~= pre + v.skip(i - 1));
            m = m - w;
            i = i - 1;
        } else {
            let style = spans[i - 1].style;
            let gs = graphemes_of_str(&spans[i - 1].content);
            let ghost gv = gs@.map_values(|x: Vec<char>| x@);
            let ghost m0 = m as int;
            let mut j: usize = gs.len();
            let mut go = true;
            assert(gv.take(j as int) =~= gv);
            assert(gv.skip(j as int) =~= Seq::<Seq<char>>::empty());
            while j > 0 && go
                invariant
                    j <= gs.len(),
                    gv == gs@.map_values(|x: Vec<char>| x@),
                    go ==> fitting_back(gv.take(j as int), m as int) + gv.skip(j as int) == fitting_back(gv, m0),
                    !go ==> gv.skip(j as int) == fitting_back(gv, m0),
                decreases j + (if go { 1int } else { 0int }),
            {
                let gw = chars_display_width(&gs[j - 1]);
                assert(gv.take(j as int).drop_last() =~= gv.take(j - 1));
                assert(gv.take(j as int).last() == gs@[j - 1]@);
                if gw <= m {
                    let ghost pre = fitting_back(gv.take(j - 1), (m - gw) as int);
                    assert(pre.push(gs@[j - 1]@) + gv.skip(j as int) =~= pre + gv.skip(j - 1));
                    m = m - gw;
                    j = j - 1;
                } else {
                    assert(Seq::<Seq<char>>::empty() + gv.skip(j as int) =~= gv.skip(j as int));
                    go = false;
                }
            }
            if go {
                assert(gv.take(0) =~= Seq::<Seq<char>>::empty());
                assert(Seq::<Seq<char>>::empty() + gv.skip(j as int) =~= gv.skip(j as int));
            }
            let mut k: usize = j;
            while k < gs.len()
                invariant
                    j <= k <= gs.len(),
                    gv == gs@.map_values(|x: Vec<char>| x@),
                    spans_view(partial@) == cluster_spans(gv.subrange(j as int, k as int), style),
                decreases gs.len() - k,
            {
                let ghost before = spans_view(partial@);
                partial.push(make_span(&gs[k], style));
                assert(spans_view(partial@) =~= before.push((gs@[k as int]@, style)));
                assert(cluster_spans(gv.subrange(j as int, k + 1), style) =~= cluster_spans(
                    gv.subrange(j as int, k as int),
                    style,
                ).push((gs@[k as int]@, style)));
                k = k + 1;
            }
            assert(gv.subrange(j as int, gs.len() as int) =~= gv.skip(j as int));
            stopped = true;
        }
    }
    if !stopped {
        assert(suffix_spans(v.take(i as int), m as int) =~= Seq::<SpanView>::empty());
        assert(spans_view(partial@) =~= Seq::<SpanView>::empty());
    }
    let mut out = partial;
    let mut rest: Vec<StyledSpan> = Vec::new();
    let mut k: usize = i;
    while k < spans.len()
        invariant
            i <= k <= spans.len(),
            v == spans_view(spans@),
            spans_view(rest@) == v.subrange(i as int, k as int),
        decreases spans.len() - k,
    {
        let ghost before = spans_view(rest@);
        rest.push(copy_span(&spans[k]));
        assert(spans_view(rest@) =~= before.push(v[k as int]));
        assert(v.subrange(i as int, k + 1) =~= v.subrange(i as int, k as int).push(v[k as int]));
        k = k + 1;
    }
    assert(v.subrange(i as int, spans.len() as int) =~= v.skip(i as int));
    extend_spans(&mut out, &rest);
    out
}

/// The ellipsis character.
pub open spec fn ellipsis() -> Seq<char> {
    seq!['\u{2026}']
}

/// `v` cut to at most `max` columns with an ellipsis in the middle: as it
/// is when it fits; nothing for no columns; only the ellipsis (in the
/// first span's style) for one column; otherwise half of the remaining
/// columns from the back (rounded down) and the rest from the front around
/// an ellipsis styled like the span before it, or failing that the span
/// after it.
pub open spec fn middle_truncated(v: Seq<SpanView>, max: int) -> Seq<SpanView> {
    if spans_width(v) <= max {
        v
    } else if max == 0 {
        Seq::empty()
    } else if max == 1 {
        seq![(ellipsis(), if v.len() > 0 { v[0].1 } else { plain_style() })]
    } else {
        let keep = max - 1;
        let right = keep / 2;
        let front = prefix_spans(v, keep - right);
        let back = suffix_spans(v, right);
        let style = if front.len() > 0 {
            front.last().1
        } else if back.len() > 0 {
            back[0].1
        } else {
            plain_style()
        };
        front.push((ellipsis(), style)) + back
    }
}

/// Whether the spans fit in `max` columns.
fn spans_fit(spans: &Vec<StyledSpan>, max: usize) -> (r: bool)
    ensures
        r == (spans_width(spans_view(spans@)) <= max),
{
    let ghost v = spans_view(spans@);
    let mut total: usize = 0;
    let mut i: usize = 0;
    while i < spans.len()
        invariant
            i <= spans.len(),
            v == spans_view(spans@),
            total == spans_width(v.take(i as int)),
            total <= max,
        decreases spans.len() - i,
    {
        assert(v.take(i + 1).drop_last() =~= v.take(i as int));
        let w = span_width_exec(&spans[i]);
        if w > max - total {
            proof {
                lemma_spans_width_prefix(v, i + 1);
            }
            return false;
        }
        total = total + w;
        i = i + 1;
    }
    assert(v.take(spans.len() as int) =~= v);
    true
}

/// Cut `spans` to at most `max_chars` columns with an ellipsis in the
/// middle (in eight columns `"very_long_name"` becomes `"very…ame"`), keeping the styles;
/// see `middle_truncated`.
pub fn middle_truncate_spans(spans: &Vec<StyledSpan>, max_chars: usize) -> (r: Vec<StyledSpan>)
    ensures
        spans_view(r@) == middle_truncated(spans_view(spans@), max_chars as int),
{
    let ghost v = spans_view(spans@);
    if spans_fit(spans, max_chars) {
        let mut out: Vec<StyledSpan> = Vec::new();
        extend_spans(&mut out, spans);
        assert(Seq::<SpanView>::empty() + v =~= v);
        return out;
    }
    if max_chars == 0 {
        let out: Vec<StyledSpan> = Vec::new();
        assert(spans_view(out@) =~= Seq::<SpanView>::empty());
        return out;
    }
    let mut e: Vec<char> = Vec::new();
    e.push('\u{2026}');
    assert(e@ =~= ellipsis());
    if max_chars == 1 {
        let style = if spans.len() > 0 { spans[0].style } else { TextStyle::new() };
        let mut out: Vec<StyledSpan> = Vec::new();
        out.push(make_span(&e, style));
        assert(spans_view(out@) =~= seq![(ellipsis(), style)]);
        return out;
    }
    let keep = max_chars - 1;
    let right = keep / 2;
    let left = keep - right;
    let mut out = take_prefix_of_spans(spans, left);
    let back = take_suffix_of_spans(spans, right);
    let style = if out.len() > 0 {
        out[out.len() - 1].style
    } else if back.len() > 0 {
        back[0].style
    } else {
        TextStyle::new()
    };
    let ghost front = spans_view(out@);
    out.push(make_span(&e, style));
    assert(spans_view(out@) =~= front.push((ellipsis(), style)));
    extend_spans(&mut out, &back);
    out
}

/// The lines of a list as lists of spans.
pub open spec fn lines_view(v: Seq<StyledLine>) -> Seq<Seq<SpanView>> {
    v.map_values(|l: StyledLine| spans_view(l.spans@))
}

/// The texts of a list of spans one after another.
pub open spec fn spans_text(v: Seq<SpanView>) -> Seq<char>
    decreases v.len(),
{
    if v.len() == 0 {
        Seq::empty()
    } else {
        spans_text(v.drop_last()) + v.last().0
    }
}

/// The texts of a list of rows one after another.
pub open spec fn rows_text(rows: Seq<Seq<SpanView>>) -> Seq<char>
    decreases rows.len(),
{
    if rows.len() == 0 {
        Seq::empty()
    } else {
        rows_text(rows.drop_last()) + spans_text(rows.last())
    }
}

/// Wrapping state: the finished rows, the spans of the current row, the
/// column reached on it, and the text of the span being laid out that is
/// not yet in the row.
pub type WrapState = (Seq<Seq<SpanView>>, Seq<SpanView>, int, Seq<char>);

/// Lay one grapheme cluster `g` of a span in `style` onto the rows: a
/// cluster of no width joins the pending text; one that would pass the
/// last column ends the row (with the pending text as its last span) and
/// starts the next; any other joins the pending text and advances the
/// column. A cluster's width is taken as a `u16`.
pub open spec fn wrap_step(st: WrapState, g: Seq<char>, style: TextStyle, cols: int) -> WrapState {
    let w = (display_width(g) as u16) as int;
    if w == 0 {
        (st.0, st.1, st.2, st.3 + g)
    } else if st.2 + w > cols {
        let row = if st.3.len() > 0 { st.1.push((st.3, style)) } else { st.1 };
        (st.0.push(row), Seq::empty(), w, g)
    } else {
        (st.0, st.1, st.2 + w, st.3 + g)
    }
}

/// Lay the clusters `gs` of a span onto the rows, in order.
pub open spec fn wrap_clusters(st: WrapState, gs: Seq<Seq<char>>, style: TextStyle, cols: int) -> WrapState
    decreases gs.len(),
{
    if gs.len() == 0 {
        st
    } else {
        wrap_step(wrap_clusters(st, gs.drop_last(), style, cols), gs.last(), style, cols)
    }
}

/// Lay a whole span onto the rows; its remaining text closes it as a span
/// of the current row.
pub open spec fn wrap_span(st: (Seq<Seq<SpanView>>, Seq<SpanView>, int), sp: SpanView, cols: int) -> (
    Seq<Seq<SpanView>>,
    Seq<SpanView>,
    int,
) {
    let after = wrap_clusters((st.0, st.1, st.2, Seq::empty()), graphemes_of(sp.0), sp.1, cols);
    (after.0, if after.3.len() > 0 { after.1.push((after.3, sp.1)) } else { after.1 }, after.2)
}

/// Lay the spans `v` onto rows of `cols` columns, from an empty first row.
pub open spec fn wrap_spans(v: Seq<SpanView>, cols: int) -> (Seq<Seq<SpanView>>, Seq<SpanView>, int)
    decreases v.len(),
{
    if v.len() == 0 {
        (Seq::empty(), Seq::empty(), 0)
    } else {
        wrap_span(wrap_spans(v.drop_last(), cols), v.last(), cols)
    }
}

/// The terminal rows a line of spans takes on a screen `cols` columns
/// wide: the rows wrapping ends, then the last (possibly empty) row; one
/// empty row when there are no columns.
pub open spec fn terminal_rows(v: Seq<SpanView>, cols: int) -> Seq<Seq<SpanView>> {
    if cols == 0 {
        seq![Seq::empty()]
    } else {
        let w = wrap_spans(v, cols);
        w.0.push(w.1)
    }
}

/// Split one logical line into display rows of at most `available_cols`
/// terminal columns each (a cluster wider than the screen takes a row of
/// its own); there is always at least one row, empty for an empty line.
/// See `terminal_rows`. With at least one column no text is lost: the
/// rows hold the line's text, in order.
pub fn split_line_to_terminal_rows(line: &StyledLine, available_cols: u16) -> (r: Vec<StyledLine>)
    ensures
        lines_view(r@) == terminal_rows(spans_view(line.spans@), available_cols as int),
        available_cols > 0 ==> rows_text(lines_view(r@)) == spans_text(spans_view(line.spans@)),
{
    if available_cols == 0 {
        let mut rows: Vec<StyledLine> = Vec::new();
        let empty: Vec<StyledSpan> = Vec::new();
        assert(spans_view(empty@) =~= Seq::<SpanView>::empty());
        rows.push(StyledLine { spans: empty });
        assert(lines_view(rows@) =~= seq![Seq::<SpanView>::empty()]);
        return rows;
    }
    let ghost v = spans_view(line.spans@);
    let ghost cols = available_cols as int;
    let mut rows: Vec<StyledLine> = Vec::new();
    let mut cur: Vec<StyledSpan> = Vec::new();
    let mut col: u16 = 0;
    let mut i: usize = 0;
    assert(lines_view(rows@) =~= Seq::<Seq<SpanView>>::empty());
    assert(spans_view(cur@) =~= Seq::<SpanView>::empty());
    assert(v.take(0) =~= Seq::<SpanView>::empty());
    while i < line.spans.len()
        invariant
            i <= line.spans.len(),
            v == spans_view(line.spans@),
            cols == available_cols as int,
            available_cols > 0,
            (lines_view(rows@), spans_view(cur@), col as int) == wrap_spans(v.take(i as int), cols),
            rows_text(lines_view(rows@)) + spans_text(spans_view(cur@)) == spans_text(v.take(i as int)),
        decreases line.spans.len() - i,
    {
        let style = line.spans[i].style;
        let gs = graphemes_of_str(&line.spans[i].content);
        let ghost gv = gs@.map_values(|x: Vec<char>| x@);
        let ghost st0 = wrap_spans(v.take(i as int), cols);
        let mut text: Vec<char> = Vec::new();
        let mut j: usize = 0;
        assert(gv.take(0) =~= Seq::<Seq<char>>::empty());
        assert(text@ =~= Seq::<char>::empty());
        while j < gs.len()
            invariant
                j <= gs.len(),
                gv == gs@.map_values(|x: Vec<char>| x@),
                cols == available_cols as int,
                available_cols > 0,
                (lines_view(rows@), spans_view(cur@), col as int, text@) == wrap_clusters(
                    (st0.0, st0.1, st0.2, Seq::empty()),
                    gv.take(j as int),
                    style,
                    cols,
                ),
                rows_text(lines_view(rows@)) + spans_text(spans_view(cur@)) + text@ == spans_text(
                    v.take(i as int),
                ) + concat_all(gv.take(j as int)),
            decreases gs.len() - j,
        {
            let w = chars_display_width(&gs[j]) as u16;
            assert(gv.take(j + 1).drop_last() =~= gv.take(j as int));
            assert(gv.take(j + 1).last() == gs@[j as int]@);
            let ghost prev = (lines_view(rows@), spans_view(cur@), col as int, text@);
            let ghost done_text = spans_text(v.take(i as int));
            let ghost seen = concat_all(gv.take(j as int));
            let ghost g = gs@[j as int]@;
            assert(concat_all(gv.take(j + 1)) == seen + g);
            if w == 0 {
                append_chars(&mut text, &gs[j]);
                assert(rows_text(prev.0) + spans_text(prev.1) + (prev.3 + g) =~= (rows_text(prev.0) + spans_text(
                    prev.1,
                ) + prev.3) + g);
                assert(done_text + seen + g =~= done_text + (seen + g));
            } else if (col as u32) + (w as u32) > (available_cols as u32) {
                if text.len() > 0 {
                    let ghost before = spans_view(cur@);
                    cur.push(make_span(&text, style));
                    assert(spans_view(cur@) =~= before.push((prev.3, style)));
                    assert(spans_view(cur@).drop_last() =~= before);
                    assert(spans_text(spans_view(cur@)) == spans_text(before) + prev.3);
                } else {
                    assert(prev.3 =~= Seq::<char>::empty());
                }
                assert(rows_text(prev.0) + spans_text(spans_view(cur@)) =~= rows_text(prev.0) + spans_text(prev.1)
                    + prev.3);
                let done = cur;
                cur = Vec::new();
                let ghost before_rows = lines_view(rows@);
                rows.push(StyledLine { spans: done });
                assert(lines_view(rows@) =~= before_rows.push(spans_view(done@)));
                assert(lines_view(rows@).drop_last() =~= before_rows);
                assert(spans_view(cur@) =~= Seq::<SpanView>::empty());
                text = Vec::new();
                append_chars(&mut text, &gs[j]);
                assert(text@ =~= gs@[j as int]@);
                assert(rows_text(lines_view(rows@)) + spans_text(spans_view(cur@)) + text@ =~= rows_text(before_rows)
                    + spans_text(spans_view(done@)) + g);
                assert(rows_text(prev.0) + spans_text(prev.1) + prev.3 + g =~= done_text + (seen + g));
                col = w;
            } else {
                append_chars(&mut text, &gs[j]);
                assert(rows_text(prev.0) + spans_text(prev.1) + (prev.3 + g) =~= (rows_text(prev.0) + spans_text(
                    prev.1,
                ) + prev.3) + g);
                assert(done_text + seen + g =~= done_text + (seen + g));
                col = col + w;
            }
            j = j + 1;
        }
        assert(gv.take(gs.len() as int) =~= gv);
        let ghost after = (lines_view(rows@), spans_view(cur@), col as int, text@);
        if text.len() > 0 {
            let ghost before = spans_view(cur@);
            cur.push(make_span(&text, style));
            assert(spans_view(cur@) =~= before.push((after.3, style)));
            assert(spans_view(cur@).drop_last() =~= before);
        } else {
            assert(after.3 =~= Seq::<char>::empty());
        }
        assert(v.take(i + 1).drop_last() =~= v.take(i as int));
        assert(v.take(i + 1).last() == v[i as int]);
        assert(rows_text(lines_view(rows@)) + spans_text(spans_view(cur@)) =~= rows_text(after.0) + spans_text(
            after.1,
        ) + after.3);
        i = i + 1;
    }
    assert(v.take(line.spans.len() as int) =~= v);
    let ghost fin = (lines_view(rows@), spans_view(cur@));
    rows.push(StyledLine { spans: cur });
    assert(lines_view(rows@) =~= fin.0.push(fin.1));
    assert(lines_view(rows@).drop_last() =~= fin.0);
    rows
}

/// The runs of `s` over which `flags` does not change, each with its flag
/// (`Itertools::chunk_by` on the flag), in order.
pub open spec fn char_runs(s: Seq<char>, flags: Seq<bool>) -> Seq<(Seq<char>, bool)>
    decreases s.len(),
{
    if s.len() == 0 {
        Seq::empty()
    } else {
        let r = char_runs(s.drop_last(), flags.take(s.len() - 1));
        let b = flags[s.len() - 1];
        if r.len() > 0 && r.last().1 == b {
            r.update(r.len() - 1, (r.last().0.push(s.last()), b))
        } else {
            r.push((seq![s.last()], b))
        }
    }
}

/// Runs as spans: a flagged run in `marked`, any other in `normal`.
pub open spec fn runs_as_spans(runs: Seq<(Seq<char>, bool)>, normal: TextStyle, marked: TextStyle) -> Seq<SpanView> {
    runs.map_values(|r: (Seq<char>, bool)| (r.0, if r.1 { marked } else { normal }))
}

/// The runs of `s` over which `flags` does not change.
fn runs_of(s: &Vec<char>, flags: &Vec<bool>) -> (r: Vec<(Vec<char>, bool)>)
    requires
        flags.len() == s.len(),
    ensures
        r@.map_values(|x: (Vec<char>, bool)| (x.0@, x.1)) == char_runs(s@, flags@),
{
    let mut done: Vec<(Vec<char>, bool)> = Vec::new();
    if s.len() == 0 {
        assert(done@.map_values(|x: (Vec<char>, bool)| (x.0@, x.1)) =~= Seq::<(Seq<char>, bool)>::empty());
        return done;
    }
    let mut cur: Vec<char> = Vec::new();
    cur.push(s[0]);
    let mut flag = flags[0];
    let mut k: usize = 1;
    proof {
        assert(s@.take(1).drop_last() =~= Seq::<char>::empty());
        assert(flags@.take(1).take(0) =~= Seq::<bool>::empty());
        assert(s@.take(1).last() == s@[0]);
        assert(flags@.take(1)[0] == flags@[0]);
        assert(char_runs(s@.take(1).drop_last(), flags@.take(1).take(0)) =~= Seq::<(Seq<char>, bool)>::empty());
        assert(char_runs(s@.take(1), flags@.take(1)) =~= seq![(seq![s@[0]], flags@[0])]);
    }
    while k < s.len()
        invariant
            1 <= k <= s.len(),
            flags.len() == s.len(),
            done@.map_values(|x: (Vec<char>, bool)| (x.0@, x.1)).push((cur@, flag)) == char_runs(
                s@.take(k as int),
                flags@.take(k as int),
            ),
        decreases s.len() - k,
    {
        let ghost dv = done@.map_values(|x: (Vec<char>, bool)| (x.0@, x.1));
        let ghost r = dv.push((cur@, flag));
        assert(s@.take(k + 1).drop_last() =~= s@.take(k as int));
        assert(flags@.take(k + 1).take(k as int) =~= flags@.take(k as int));
        assert(s@.take(k + 1).last() == s@[k as int]);
        if flags[k] == flag {
            cur.push(s[k]);
            assert(r.update(r.len() - 1, (r.last().0.push(s@[k as int]), flag)) =~= dv.push((cur@, flag)));
        } else {
            let finished = cur;
            done.push((finished, flag));
            assert(done@.map_values(|x: (Vec<char>, bool)| (x.0@, x.1)) =~= r);
            cur = Vec::new();
            cur.push(s[k]);
            flag = flags[k];
            assert(cur@ =~= seq![s@[k as int]]);
        }
        k = k + 1;
    }
    assert(s@.take(s.len() as int) =~= s@);
    assert(flags@.take(s.len() as int) =~= flags@);
    let ghost dv = done@.map_values(|x: (Vec<char>, bool)| (x.0@, x.1));
    done.push((cur, flag));
    assert(done@.map_values(|x: (Vec<char>, bool)| (x.0@, x.1)) =~= dv.push((cur@, flag)));
    done
}

/// Runs as spans: a flagged run in `marked`, any other in `normal`.
fn runs_to_spans(runs: &Vec<(Vec<char>, bool)>, normal: TextStyle, marked: TextStyle) -> (r: Vec<StyledSpan>)
    ensures
        spans_view(r@) == runs_as_spans(runs@.map_values(|x: (Vec<char>, bool)| (x.0@, x.1)), normal, marked),
{
    let ghost rv = runs@.map_values(|x: (Vec<char>, bool)| (x.0@, x.1));
    let mut out: Vec<StyledSpan> = Vec::new();
    let mut i: usize = 0;
    while i < runs.len()
        invariant
            i <= runs.len(),
            rv == runs@.map_values(|x: (Vec<char>, bool)| (x.0@, x.1)),
            spans_view(out@) == runs_as_spans(rv.take(i as int), normal, marked),
        decreases runs.len() - i,
    {
        let style = if runs[i].1 { marked } else { normal };
        let ghost before = spans_view(out@);
        out.push(make_span(&runs[i].0, style));
        assert(spans_view(out@) =~= before.push((rv[i as int].0, style)));
        assert(runs_as_spans(rv.take(i + 1), normal, marked) =~= runs_as_spans(rv.take(i as int), normal, marked).push(
            (rv[i as int].0, style),
        ));
        i = i + 1;
    }
    assert(rv.take(runs.len() as int) =~= rv);
    out
}

/// Whether `x` is one of the indices in `m`.
pub open spec fn has_index(m: Seq<usize>, x: int) -> bool {
    exists|t: int| 0 <= t < m.len() && m[t] as int == x
}

fn has_index_exec(m: &Vec<usize>, x: usize) -> (r: bool)
    ensures
        r == has_index(m@, x as int),
{
    let mut i: usize = 0;
    while i < m.len()
        invariant
            i <= m.len(),
            forall|t: int| 0 <= t < i ==> m@[t] != x,
        decreases m.len() - i,
    {
        if m[i] == x {
            return true;
        }
        i = i + 1;
    }
    false
}

/// Which characters of a line starting at character offset `off` of the
/// whole text count as matched: those whose byte offset within the line,
/// read as a character offset, lies inside the line and is among `m` once
/// shifted by `off` (the line's indices are compared with the byte
/// positions `str::char_indices` gives).
pub open spec fn line_match_flags(line: Seq<char>, off: int, m: Seq<usize>) -> Seq<bool> {
    Seq::new(
        line.len(),
        |j: int| byte_offset(line, j) < line.len() && has_index(m, off + byte_offset(line, j)),
    )
}

/// Character offset in the whole text of the start of line `k` (each line
/// break counts one).
pub open spec fn line_offset(lines: Seq<Seq<char>>, k: int) -> int
    decreases k,
{
    if k <= 0 {
        0
    } else {
        line_offset(lines, k - 1) + lines[k - 1].len() + 1
    }
}

/// The lines of `s`, each cut into runs of matched and unmatched
/// characters: matched runs in `marked`, the others in `normal`.
pub open spec fn highlighted_lines(s: Seq<char>, m: Seq<usize>, normal: TextStyle, marked: TextStyle) -> Seq<Seq<SpanView>> {
    let ls = crate::text_ops::char_fields(s, 0, '\n');
    Seq::new(
        ls.len(),
        |k: int| runs_as_spans(char_runs(ls[k], line_match_flags(ls[k], line_offset(ls, k), m)), normal, marked),
    )
}

/// The flags of `line_match_flags` for one line.
fn line_flags(line: &Vec<char>, off: usize, m: &Vec<usize>) -> (r: Vec<bool>)
    requires
        off + line.len() <= usize::MAX,
    ensures
        r@ == line_match_flags(line@, off as int, m@),
{
    let mut out: Vec<bool> = Vec::new();
    let mut acc: usize = 0;
    let mut j: usize = 0;
    while j < line.len()
        invariant
            j <= line.len(),
            off + line.len() <= usize::MAX,
            acc < line.len() ==> acc == byte_offset(line@, j as int),
            acc >= line.len() ==> byte_offset(line@, j as int) >= line.len(),
            acc <= line.len(),
            out@ == line_match_flags(line@, off as int, m@).take(j as int),
        decreases line.len() - j,
    {
        proof {
            crate::unicode::lemma_byte_offset_step(line@, j as int);
        }
        let f = acc < line.len() && has_index_exec(m, off + acc);
        out.push(f);
        assert(out@ =~= line_match_flags(line@, off as int, m@).take(j + 1));
        if acc < line.len() {
            let w = crate::unicode::char_width_bytes(line[j]);
            if w >= line.len() - acc {
                acc = line.len();
            } else {
                acc = acc + w;
            }
        }
        j = j + 1;
    }
    assert(out@ =~= line_match_flags(line@, off as int, m@));
    out
}

/// The lines of `s` (split at `'\n'`) with the characters at
/// `matching_indices` (character offsets into `s`, a line break counting
/// one) picked out: each line becomes runs of matched and unmatched
/// characters, the matched ones in `base_style` with the palette's
/// matching-character style laid over it and the others in `base_style`.
/// The offsets within a line are compared with the byte positions of its
/// characters.
pub fn highlight_matching_indices(palette: &Palette, s: &str, matching_indices: &Vec<usize>, base_style: TextStyle) -> (r: Vec<StyledLine>)
    requires
        s@.len() < usize::MAX,
    ensures
        lines_view(r@) == highlighted_lines(
            s@,
            matching_indices@,
            base_style,
            patched(base_style, palette.slot(PaletteStyleKind::MatchingChar)),
        ),
{
    let marked = base_style.patch(palette.matching_char());
    let v = chars_of(s);
    let ls = crate::text_ops::char_fields_exec(&v, '\n');
    let ghost lv = ls@.map_values(|x: Vec<char>| x@);
    proof {
        lemma_fields_total(v@, 0, '\n');
    }
    let mut out: Vec<StyledLine> = Vec::new();
    let mut off: usize = 0;
    let mut k: usize = 0;
    while k < ls.len()
        invariant
            k <= ls.len(),
            v@ == s@,
            s@.len() < usize::MAX,
            lv == ls@.map_values(|x: Vec<char>| x@),
            lv == crate::text_ops::char_fields(v@, 0, '\n'),
            fields_total(lv) <= s@.len() + 1,
            off == line_offset(lv, k as int),
            lines_view(out@) == highlighted_lines(s@, matching_indices@, base_style, marked).take(k as int),
        decreases ls.len() - k,
    {
        proof {
            lemma_line_offset_total(lv, k + 1);
        }
        let flags = line_flags(&ls[k], off, matching_indices);
        let runs = runs_of(&ls[k], &flags);
        let spans = runs_to_spans(&runs, base_style, marked);
        let ghost before = lines_view(out@);
        out.push(StyledLine { spans });
        assert(lines_view(out@) =~= before.push(spans_view(spans@)));
        assert(highlighted_lines(s@, matching_indices@, base_style, marked).take(k + 1) =~= before.push(
            spans_view(spans@),
        ));
        off = off + ls[k].len() + 1;
        k = k + 1;
    }
    assert(highlighted_lines(s@, matching_indices@, base_style, marked).take(ls.len() as int) =~= highlighted_lines(
        s@,
        matching_indices@,
        base_style,
        marked,
    ));
    out
}

/// Total of the lengths of `ls`, each plus one.
pub open spec fn fields_total(ls: Seq<Seq<char>>) -> int
    decreases ls.len(),
{
    if ls.len() == 0 {
        0
    } else {
        ls[0].len() + 1 + fields_total(ls.drop_first())
    }
}

/// A line's offset and the total of the lines from it on make the whole.
proof fn lemma_line_offset_total(ls: Seq<Seq<char>>, k: int)
    requires
        0 <= k <= ls.len(),
    ensures
        line_offset(ls, k) + fields_total(ls.skip(k)) == fields_total(ls),
        fields_total(ls.skip(k)) >= 0,
    decreases k,
{
    if k == 0 {
        assert(ls.skip(0) =~= ls);
        lemma_fields_total_nonneg(ls);
    } else {
        lemma_line_offset_total(ls, k - 1);
        assert(ls.skip(k - 1).drop_first() =~= ls.skip(k));
        assert(ls.skip(k - 1)[0] == ls[k - 1]);
        lemma_fields_total_nonneg(ls.skip(k));
    }
}

proof fn lemma_fields_total_nonneg(ls: Seq<Seq<char>>)
    ensures
        fields_total(ls) >= 0,
    decreases ls.len(),
{
    if ls.len() > 0 {
        lemma_fields_total_nonneg(ls.drop_first());
    }
}

/// The fields of `s` from `i`, with one separator each, take no more than
/// the rest of `s` plus one.
proof fn lemma_fields_total(s: Seq<char>, i: int, c: char)
    requires
        0 <= i <= s.len(),
    ensures
        fields_total(crate::text_ops::char_fields(s, i, c)) <= s.len() - i + 1,
    decreases s.len() - i,
{
    let e = crate::text_buffer::run_fwd(s, i, crate::text_ops::not_char_p(c));
    crate::text_buffer::lemma_run_fwd_ge(s, i, crate::text_ops::not_char_p(c));
    let f = crate::text_ops::char_fields(s, i, c);
    if e >= s.len() {
        assert(f == seq![s.subrange(i, s.len() as int)]);
        assert(f.drop_first() =~= Seq::<Seq<char>>::empty());
        assert(fields_total(f.drop_first()) == 0);
    } else {
        lemma_fields_total(s, e + 1, c);
        let rest = crate::text_ops::char_fields(s, e + 1, c);
        assert(f == seq![s.subrange(i, e)] + rest);
        assert(f.drop_first() =~= rest);
        assert(f[0].len() == e - i);
    }
}

/// The runs of one span over which being matched does not change: its
/// characters are at offsets `off`, `off + 1`, ... of the whole text.
pub open spec fn span_matched(sp: SpanView, off: int, m: Seq<usize>, ms: TextStyle) -> Seq<SpanView> {
    runs_as_spans(char_runs(sp.0, Seq::new(sp.0.len(), |c: int| has_index(m, off + c))), sp.1, patched(sp.1, ms))
}

/// The spans of a line starting at offset `off`, each cut into runs.
pub open spec fn line_matched(v: Seq<SpanView>, off: int, m: Seq<usize>, ms: TextStyle) -> Seq<SpanView>
    decreases v.len(),
{
    if v.len() == 0 {
        Seq::empty()
    } else {
        line_matched(v.drop_last(), off, m, ms) + span_matched(v.last(), off + spans_text(v.drop_last()).len(), m, ms)
    }
}

/// Characters in a list of lines, each line break counting one.
pub open spec fn lines_chars(ls: Seq<Seq<SpanView>>) -> int
    decreases ls.len(),
{
    if ls.len() == 0 {
        0
    } else {
        lines_chars(ls.drop_last()) + spans_text(ls.last()).len() + 1
    }
}

/// The lines with each span cut into runs of matched and unmatched
/// characters: matched runs in the span's style with `ms` laid over it,
/// the others in the span's style.
pub open spec fn lines_matched(ls: Seq<Seq<SpanView>>, m: Seq<usize>, ms: TextStyle) -> Seq<Seq<SpanView>> {
    Seq::new(ls.len(), |k: int| line_matched(ls[k], lines_chars(ls.take(k)), m, ms))
}

proof fn lemma_lines_chars_prefix(ls: Seq<Seq<SpanView>>, k: int)
    requires
        0 <= k <= ls.len(),
    ensures
        lines_chars(ls.take(k)) <= lines_chars(ls),
    decreases ls.len() - k,
{
    if k < ls.len() {
        lemma_lines_chars_prefix(ls, k + 1);
        assert(ls.take(k + 1).drop_last() =~= ls.take(k));
    } else {
        assert(ls.take(k) =~= ls);
    }
}

proof fn lemma_spans_text_prefix(v: Seq<SpanView>, t: int)
    requires
        0 <= t <= v.len(),
    ensures
        spans_text(v.take(t)).len() <= spans_text(v).len(),
    decreases v.len() - t,
{
    if t < v.len() {
        lemma_spans_text_prefix(v, t + 1);
        assert(v.take(t + 1).drop_last() =~= v.take(t));
    } else {
        assert(v.take(t) =~= v);
    }
}

/// Whether each of the `n` offsets from `off` is one of the indices in `m`.
fn index_flags(n: usize, off: usize, m: &Vec<usize>) -> (r: Vec<bool>)
    requires
        off + n <= usize::MAX,
    ensures
        r@ == Seq::new(n as nat, |c: int| has_index(m@, off + c)),
{
    let mut out: Vec<bool> = Vec::new();
    let mut c: usize = 0;
    while c < n
        invariant
            c <= n,
            off + n <= usize::MAX,
            out@ == Seq::new(c as nat, |x: int| has_index(m@, off + x)),
        decreases n - c,
    {
        out.push(has_index_exec(m, off + c));
        assert(out@ =~= Seq::new((c + 1) as nat, |x: int| has_index(m@, off + x)));
        c = c + 1;
    }
    out
}

/// The lines with the characters at `match_indices` picked out: the
/// characters of the lines are counted one after another (a line break
/// counting one), and each span is cut into runs of matched and unmatched
/// characters, the matched ones in the span's style with the palette's
/// matching-character style laid over it and the others in the span's
/// style. See `lines_matched`.
pub fn apply_match_indices_to_lines(palette: &Palette, lines: &Vec<StyledLine>, match_indices: &Vec<usize>) -> (r: Vec<StyledLine>)
    requires
        lines_chars(lines_view(lines@)) <= usize::MAX,
    ensures
        lines_view(r@) == lines_matched(lines_view(lines@), match_indices@, palette.slot(PaletteStyleKind::MatchingChar)),
{
    let ms = palette.matching_char();
    let ghost lv = lines_view(lines@);
    let mut result: Vec<StyledLine> = Vec::new();
    let mut g: usize = 0;
    let mut k: usize = 0;
    while k < lines.len()
        invariant
            k <= lines.len(),
            lv == lines_view(lines@),
            lines_chars(lv) <= usize::MAX,
            ms == palette.slot(PaletteStyleKind::MatchingChar),
            g == lines_chars(lv.take(k as int)),
            lines_view(result@) == lines_matched(lv, match_indices@, ms).take(k as int),
        decreases lines.len() - k,
    {
        let line = &lines[k];
        let ghost sv = spans_view(line.spans@);
        assert(lv[k as int] == sv);
        assert(lv.take(k + 1).drop_last() =~= lv.take(k as int));
        proof {
            lemma_lines_chars_prefix(lv, k + 1);
        }
        let mut spans: Vec<StyledSpan> = Vec::new();
        let mut h: usize = g;
        let mut t: usize = 0;
        assert(sv.take(0) =~= Seq::<SpanView>::empty());
        assert(spans_view(spans@) =~= Seq::<SpanView>::empty());
        while t < line.spans.len()
            invariant
                t <= line.spans.len(),
                sv == spans_view(line.spans@),
                g + spans_text(sv).len() + 1 <= usize::MAX,
                h == g + spans_text(sv.take(t as int)).len(),
                spans_view(spans@) == line_matched(sv.take(t as int), g as int, match_indices@, ms),
            decreases line.spans.len() - t,
        {
            let sp = &line.spans[t];
            let c = chars_of(sp.content.as_str());
            assert(sv.take(t + 1).drop_last() =~= sv.take(t as int));
            assert(sv.take(t + 1).last() == sv[t as int]);
            assert(sv[t as int] == (c@, sp.style));
            proof {
                lemma_spans_text_prefix(sv, t + 1);
            }
            let flags = index_flags(c.len(), h, match_indices);
            let runs = runs_of(&c, &flags);
            let pieces = runs_to_spans(&runs, sp.style, sp.style.patch(ms));
            let ghost before = spans_view(spans@);
            extend_spans(&mut spans, &pieces);
            h = h + c.len();
            t = t + 1;
        }
        assert(sv.take(line.spans.len() as int) =~= sv);
        let ghost before = lines_view(result@);
        result.push(StyledLine { spans });
        assert(lines_view(result@) =~= before.push(spans_view(spans@)));
        assert(lines_matched(lv, match_indices@, ms).take(k + 1) =~= before.push(spans_view(spans@)));
        g = h + 1;
        k = k + 1;
    }
    assert(lines_matched(lv, match_indices@, ms).take(lines.len() as int) =~= lines_matched(lv, match_indices@, ms));
    result
}

/// The SGR parameter that selects colour `c` for the foreground (or, with
/// `is_bg`, the background): the eight basic colours, RGB and indexed
/// colours; nothing for the others.
pub open spec fn colour_code(c: Colour, is_bg: bool) -> Seq<char> {
    let base = |n: nat| if is_bg { decimal(40 + n) } else { decimal(30 + n) };
    match c {
        Colour::Black => base(0),
        Colour::Red => base(1),
        Colour::Green => base(2),
        Colour::Yellow => base(3),
        Colour::Blue => base(4),
        Colour::Magenta => base(5),
        Colour::Cyan => base(6),
        Colour::Gray => base(7),
        Colour::Rgb(r, g, b) => (if is_bg { "48;2;"@ } else { "38;2;"@ }) + decimal(r as nat) + seq![';'] + decimal(
            g as nat,
        ) + seq![';'] + decimal(b as nat),
        Colour::Indexed(i) => (if is_bg { "48;5;"@ } else { "38;5;"@ }) + decimal(i as nat),
        _ => Seq::empty(),
    }
}

/// The SGR parameters of a style: its foreground and background colours
/// (each when set, even when it has no code), then 1, 3 and 4 for bold,
/// italic and underlined.
pub open spec fn style_codes(s: TextStyle) -> Seq<Seq<char>> {
    let fg = match s.fg {
        Some(c) => seq![colour_code(c, false)],
        None => Seq::empty(),
    };
    let bg = match s.bg {
        Some(c) => seq![colour_code(c, true)],
        None => Seq::empty(),
    };
    let b = if s.add_modifier & crate::style::BOLD == crate::style::BOLD { seq![seq!['1']] } else { Seq::empty() };
    let i = if s.add_modifier & crate::style::ITALIC == crate::style::ITALIC { seq![seq!['3']] } else { Seq::empty() };
    let u = if s.add_modifier & crate::style::UNDERLINED == crate::style::UNDERLINED {
        seq![seq!['4']]
    } else {
        Seq::empty()
    };
    fg + bg + b + i + u
}

/// The texts of `v` with `sep` between them.
pub open spec fn joined(v: Seq<Seq<char>>, sep: char) -> Seq<char>
    decreases v.len(),
{
    if v.len() == 0 {
        Seq::empty()
    } else if v.len() == 1 {
        v[0]
    } else {
        joined(v.drop_last(), sep) + seq![sep] + v.last()
    }
}

/// The escape sequence that switches the terminal to a style: `ESC [`,
/// the style's parameters joined by `;`, `m`; nothing when there are none.
pub open spec fn style_ansi(s: TextStyle) -> Seq<char> {
    let codes = style_codes(s);
    if codes.len() == 0 {
        Seq::empty()
    } else {
        seq!['\u{1b}', '['] + joined(codes, ';') + seq!['m']
    }
}

fn push_str_chars(v: &mut Vec<char>, s: &str)
    ensures
        final(v)@ == old(v)@ + s@,
{
    let c = chars_of(s);
    append_chars(v, &c);
}

fn small_decimal(n: u64) -> (v: Vec<char>)
    ensures
        v@ == decimal(n as nat),
{
    decimal_chars(n)
}

/// The SGR parameter for colour `color` as foreground or background.
pub fn color_to_ansi(color: Colour, is_bg: bool) -> (s: String)
    ensures
        s@ == colour_code(color, is_bg),
{
    let basic: Option<u64> = match color {
        Colour::Black => Some(0),
        Colour::Red => Some(1),
        Colour::Green => Some(2),
        Colour::Yellow => Some(3),
        Colour::Blue => Some(4),
        Colour::Magenta => Some(5),
        Colour::Cyan => Some(6),
        Colour::Gray => Some(7),
        _ => None,
    };
    if let Some(n) = basic {
        let v = small_decimal(if is_bg { 40 + n } else { 30 + n });
        return string_of(&v);
    }
    let mut v: Vec<char> = Vec::new();
    match color {
        Colour::Rgb(r, g, b) => {
            push_str_chars(&mut v, if is_bg { "48;2;" } else { "38;2;" });
            append_chars(&mut v, &small_decimal(r as u64));
            v.push(';');
            append_chars(&mut v, &small_decimal(g as u64));
            v.push(';');
            append_chars(&mut v, &small_decimal(b as u64));
        },
        Colour::Indexed(i) => {
            push_str_chars(&mut v, if is_bg { "48;5;" } else { "38;5;" });
            append_chars(&mut v, &small_decimal(i as u64));
        },
        _ => {},
    }
    proof {
        match color {
            Colour::Rgb(r, g, b) => {
                assert(v@ =~= colour_code(color, is_bg));
            },
            Colour::Indexed(i) => {
                assert(v@ =~= colour_code(color, is_bg));
            },
            _ => {
                assert(v@ =~= colour_code(color, is_bg));
            },
        }
    }
    string_of(&v)
}

/// The escape sequence that switches the terminal to `style` (see
/// `style_ansi`).
pub fn style_to_ansi(style: TextStyle) -> (s: String)
    ensures
        s@ == style_ansi(style),
{
    let mut codes: Vec<Vec<char>> = Vec::new();
    if let Some(fg) = style.fg {
        codes.push(chars_of(color_to_ansi(fg, false).as_str()));
    }
    if let Some(bg) = style.bg {
        codes.push(chars_of(color_to_ansi(bg, true).as_str()));
    }
    if style.add_modifier & crate::style::BOLD == crate::style::BOLD {
        let mut c: Vec<char> = Vec::new();
        c.push('1');
        codes.push(c);
    }
    if style.add_modifier & crate::style::ITALIC == crate::style::ITALIC {
        let mut c: Vec<char> = Vec::new();
        c.push('3');
        codes.push(c);
    }
    if style.add_modifier & crate::style::UNDERLINED == crate::style::UNDERLINED {
        let mut c: Vec<char> = Vec::new();
        c.push('4');
        codes.push(c);
    }
    let ghost cv = codes@.map_values(|x: Vec<char>| x@);
    assert(cv =~= style_codes(style));
    if codes.len() == 0 {
        return String::new();
    }
    let mut out: Vec<char> = Vec::new();
    out.push('\u{1b}');
    out.push('[');
    let mut k: usize = 0;
    while k < codes.len()
        invariant
            k <= codes.len(),
            cv == codes@.map_values(|x: Vec<char>| x@),
            codes.len() > 0,
            k == 0 ==> out@ == seq!['\u{1b}', '['],
            k > 0 ==> out@ == seq!['\u{1b}', '['] + joined(cv.take(k as int), ';'),
        decreases codes.len() - k,
    {
        assert(cv.take(k + 1).drop_last() =~= cv.take(k as int));
        assert(cv.take(k + 1).last() == codes@[k as int]@);
        if k > 0 {
            out.push(';');
        }
        append_chars(&mut out, &codes[k]);
        proof {
            if k == 0 {
                assert(cv.take(1) =~= seq![cv[0]]);
                assert(out@ =~= seq!['\u{1b}', '['] + joined(cv.take(1), ';'));
            } else {
                assert(out@ =~= seq!['\u{1b}', '['] + joined(cv.take(k + 1), ';'));
            }
        }
        k = k + 1;
    }
    assert(cv.take(codes.len() as int) =~= cv);
    out.push('m');
    string_of(&out)
}

/// A span as text for a terminal: the escape sequence of its style, its
/// text, then the reset sequence `ESC [0m`.
pub fn span_to_ansi(span: &StyledSpan) -> (s: String)
    ensures
        s@ == style_ansi(span.style) + span.content@ + seq!['\u{1b}', '[', '0', 'm'],
{
    let mut v = chars_of(style_to_ansi(span.style).as_str());
    append_chars(&mut v, &chars_of(span.content.as_str()));
    v.push('\u{1b}');
    v.push('[');
    v.push('0');
    v.push('m');
    let ghost a = style_ansi(span.style) + span.content@;
    assert(v@ =~= a + seq!['\u{1b}', '[', '0', 'm']);
    string_of(&v)
}

} // verus!
