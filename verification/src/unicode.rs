//! Character-level facts shared by the editor: UTF-8 byte widths, byte
//! offsets of character positions, whitespace classes, and the grapheme and
//! display-width queries answered by the Unicode crates.

use unicode_segmentation::UnicodeSegmentation;
use unicode_width::UnicodeWidthStr;
use vstd::prelude::*;

verus! {

/// Number of bytes in the UTF-8 encoding of `c`.
pub open spec fn utf8_width(c: char) -> nat {
    if (c as u32) < 0x80 {
        1
    } else if (c as u32) < 0x800 {
        2
    } else if (c as u32) < 0x10000 {
        3
    } else {
        4
    }
}

/// Number of bytes in the UTF-8 encoding of the character sequence `s`.
pub open spec fn byte_len(s: Seq<char>) -> nat
    decreases s.len(),
{
    if s.len() == 0 {
        0
    } else {
        utf8_width(s[0]) + byte_len(s.drop_first())
    }
}

/// Byte offset of the character position `k` in `s`.
pub open spec fn byte_offset(s: Seq<char>, k: int) -> nat {
    byte_len(s.take(k))
}

/// Byte length is additive over concatenation.
pub proof fn lemma_byte_len_concat(a: Seq<char>, b: Seq<char>)
    ensures
        byte_len(a + b) == byte_len(a) + byte_len(b),
    decreases a.len(),
{
    if a.len() == 0 {
        assert(a + b =~= b);
    } else {
        assert((a + b).drop_first() =~= a.drop_first() + b);
        lemma_byte_len_concat(a.drop_first(), b);
    }
}

/// A sequence has at least as many bytes as characters.
pub proof fn lemma_byte_len_ge_len(s: Seq<char>)
    ensures
        byte_len(s) >= s.len(),
        byte_len(s) <= 4 * s.len(),
    decreases s.len(),
{
    if s.len() > 0 {
        lemma_byte_len_ge_len(s.drop_first());
    }
}

/// Moving one character to the right adds that character's width.
pub proof fn lemma_byte_offset_step(s: Seq<char>, k: int)
    requires
        0 <= k < s.len(),
    ensures
        byte_offset(s, k + 1) == byte_offset(s, k) + utf8_width(s[k]),
{
    assert(s.take(k + 1) =~= s.take(k) + seq![s[k]]);
    lemma_byte_len_concat(s.take(k), seq![s[k]]);
    assert(seq![s[k]].drop_first() =~= Seq::<char>::empty());
    assert(byte_len(seq![s[k]].drop_first()) == 0);
    assert(byte_len(seq![s[k]]) == utf8_width(s[k]));
}

/// Byte offsets grow strictly with the character position.
pub proof fn lemma_byte_offset_mono(s: Seq<char>, j: int, k: int)
    requires
        0 <= j <= k <= s.len(),
    ensures
        byte_offset(s, j) + (k - j) <= byte_offset(s, k),
        byte_offset(s, k) <= byte_offset(s, j) + 4 * (k - j),
        byte_offset(s, k) <= byte_len(s),
    decreases k - j,
{
    if j < k {
        lemma_byte_offset_mono(s, j, k - 1);
        lemma_byte_offset_step(s, k - 1);
    }
    assert(s.take(s.len() as int) =~= s);
    if k < s.len() {
        lemma_byte_offset_mono_to_end(s, k);
    }
}

proof fn lemma_byte_offset_mono_to_end(s: Seq<char>, k: int)
    requires
        0 <= k <= s.len(),
    ensures
        byte_offset(s, k) <= byte_len(s),
    decreases s.len() - k,
{
    if k < s.len() {
        lemma_byte_offset_step(s, k);
        lemma_byte_offset_mono_to_end(s, k + 1);
    } else {
        assert(s.take(k) =~= s);
    }
}

/// Distinct character positions have distinct byte offsets.
pub proof fn lemma_byte_offset_injective(s: Seq<char>, j: int, k: int)
    requires
        0 <= j <= s.len(),
        0 <= k <= s.len(),
        byte_offset(s, j) == byte_offset(s, k),
    ensures
        j == k,
{
    if j < k {
        lemma_byte_offset_mono(s, j, k);
    } else if k < j {
        lemma_byte_offset_mono(s, k, j);
    }
}

/// `b` is the byte offset of some character position of `s`.
pub open spec fn is_boundary(s: Seq<char>, b: int) -> bool {
    exists|k: int| 0 <= k <= s.len() && byte_offset(s, k) == b
}

/// The character position whose byte offset is `b` (meaningful when `b` is a boundary).
pub open spec fn char_pos_of_byte(s: Seq<char>, b: int) -> int {
    choose|k: int| 0 <= k <= s.len() && byte_offset(s, k) == b
}

/// The UTF-8 width of a character.
pub fn char_width_bytes(c: char) -> (w: usize)
    ensures
        w == utf8_width(c),
        1 <= w <= 4,
{
    let u = c as u32;
    if u < 0x80 {
        1
    } else if u < 0x800 {
        2
    } else if u < 0x10000 {
        3
    } else {
        4
    }
}


/// `encode_utf8` from vstd produces exactly `byte_len` bytes, so `str::len`
/// reports `byte_len` of the string's characters.
pub proof fn lemma_encode_len(s: Seq<char>)
    ensures
        vstd::utf8::encode_utf8(s).len() == byte_len(s),
    decreases s.len(),
{
    if s.len() > 0 {
        lemma_encode_len(s.drop_first());
        let c = s[0];
        vstd::utf8::char_is_scalar(c);
        let u = c as u32;
        assert(vstd::utf8::encode_scalar(u).len() == utf8_width(c));
    }
}

/// The byte length of a string slice, related to its characters.
pub fn str_byte_len(s: &str) -> (n: usize)
    ensures
        n == byte_len(s@),
{
    proof {
        lemma_encode_len(s@);
    }
    let b = s.as_bytes();
    b.len()
}

/// Unicode `White_Space`, the property tested by `char::is_whitespace`.
pub open spec fn is_whitespace_spec(c: char) -> bool {
    let u = c as u32;
    ||| 0x09 <= u <= 0x0D
    ||| u == 0x20
    ||| u == 0x85
    ||| u == 0xA0
    ||| u == 0x1680
    ||| 0x2000 <= u <= 0x200A
    ||| u == 0x2028
    ||| u == 0x2029
    ||| u == 0x202F
    ||| u == 0x205F
    ||| u == 0x3000
}

/// ASCII punctuation, as tested by `char::is_ascii_punctuation`.
pub open spec fn is_ascii_punct_spec(c: char) -> bool {
    let u = c as u32;
    ||| 0x21 <= u <= 0x2F
    ||| 0x3A <= u <= 0x40
    ||| 0x5B <= u <= 0x60
    ||| 0x7B <= u <= 0x7E
}

/// Whether `c` is Unicode whitespace.
pub fn is_whitespace(c: char) -> (b: bool)
    ensures
        b == is_whitespace_spec(c),
{
    let u = c as u32;
    (0x09 <= u && u <= 0x0D) || u == 0x20 || u == 0x85 || u == 0xA0 || u == 0x1680 || (0x2000
        <= u && u <= 0x200A) || u == 0x2028 || u == 0x2029 || u == 0x202F || u == 0x205F || u
        == 0x3000
}

/// Whether `c` is ASCII punctuation.
pub fn is_ascii_punct(c: char) -> (b: bool)
    ensures
        b == is_ascii_punct_spec(c),
{
    let u = c as u32;
    (0x21 <= u && u <= 0x2F) || (0x3A <= u && u <= 0x40) || (0x5B <= u && u <= 0x60) || (0x7B
        <= u && u <= 0x7E)
}

/// The characters of a string slice.
#[verifier::external_body]
pub fn chars_of(s: &str) -> (v: Vec<char>)
    ensures
        v@ == s@,
{
    s.chars().collect()
}

/// The string made of the given characters.
#[verifier::external_body]
pub fn string_of(v: &Vec<char>) -> (s: String)
    ensures
        s@ == v@,
{
    v.iter().collect()
}

/// Byte offsets of the extended grapheme clusters of a text, as reported by
/// `unicode_segmentation`.
pub uninterp spec fn grapheme_byte_starts(s: Seq<char>) -> Seq<usize>;

/// Display width in terminal columns of a text, as reported by `unicode_width`.
pub uninterp spec fn display_width(s: Seq<char>) -> usize;

/// `UnicodeSegmentation::grapheme_indices(text, true)`, keeping the offsets.
/// The clusters partition the text, so the offsets are strictly increasing,
/// each starts a character, the first is 0 and all lie before the end.
#[verifier::external_body]
fn grapheme_offsets_of(text: &str) -> (r: Vec<usize>)
    ensures
        r@ == grapheme_byte_starts(text@),
        forall|i: int, j: int| 0 <= i < j < r.len() ==> r[i] < r[j],
        forall|i: int| 0 <= i < r.len() ==> r[i] < byte_len(text@) && is_boundary(text@, r[i] as int),
        text@.len() > 0 ==> r.len() > 0 && r[0] == 0,
        text@.len() == 0 ==> r.len() == 0,
{
    text.grapheme_indices(true).map(|(i, _)| i).collect()
}

/// `UnicodeWidthStr::width(text)`. By the rules the crate documents, no
/// character is wider than three columns and every sequence it measures as
/// a whole (emoji sequences, quotation marks with variation selectors,
/// script ligatures) has at least two characters and at most two columns,
/// so a text is at most three columns per character.
#[verifier::external_body]
fn width_of(text: &str) -> (w: usize)
    ensures
        w == display_width(text@),
        w <= 3 * text@.len(),
{
    text.width()
}

/// Display width of a run of characters.
pub fn chars_display_width(v: &Vec<char>) -> (w: usize)
    ensures
        w == display_width(v@),
        w <= 3 * v@.len(),
{
    let s = string_of(v);
    width_of(s.as_str())
}

/// Byte offset of character position `k`.
pub fn byte_offset_of(v: &Vec<char>, k: usize) -> (b: usize)
    requires
        k <= v.len(),
        byte_len(v@) <= usize::MAX,
    ensures
        b == byte_offset(v@, k as int),
{
    let mut i: usize = 0;
    let mut acc: usize = 0;
    while i < k
        invariant
            i <= k <= v.len(),
            byte_len(v@) <= usize::MAX,
            acc == byte_offset(v@, i as int),
        decreases k - i,
    {
        proof {
            lemma_byte_offset_step(v@, i as int);
            lemma_byte_offset_mono(v@, i as int + 1, v.len() as int);
        }
        acc = acc + char_width_bytes(v[i]);
        i = i + 1;
    }
    acc
}

/// The character position at byte offset `b`, or `None` when `b` does not
/// start a character (and is not the end).
pub fn char_pos_for_byte(v: &Vec<char>, b: usize) -> (r: Option<usize>)
    requires
        byte_len(v@) <= usize::MAX,
    ensures
        r is Some <==> is_boundary(v@, b as int),
        r matches Some(k) ==> k <= v.len() && byte_offset(v@, k as int) == b && char_pos_of_byte(
            v@,
            b as int,
        ) == k,
{
    let mut i: usize = 0;
    let mut acc: usize = 0;
    while i < v.len() && acc < b
        invariant
            i <= v.len(),
            byte_len(v@) <= usize::MAX,
            acc == byte_offset(v@, i as int),
            forall|j: int| 0 <= j < i ==> byte_offset(v@, j) < b,
        decreases v.len() - i,
    {
        proof {
            lemma_byte_offset_step(v@, i as int);
            lemma_byte_offset_mono(v@, i as int + 1, v.len() as int);
        }
        acc = acc + char_width_bytes(v[i]);
        i = i + 1;
    }
    if acc == b {
        proof {
            let k = char_pos_of_byte(v@, b as int);
            assert(0 <= i <= v.len() && byte_offset(v@, i as int) == b);
            lemma_byte_offset_injective(v@, k, i as int);
        }
        Some(i)
    } else {
        proof {
            if is_boundary(v@, b as int) {
                let k = choose|k: int| 0 <= k <= v@.len() && byte_offset(v@, k) == b;
                if k < i {
                } else if k > i {
                    lemma_byte_offset_mono(v@, i as int, k);
                    if i == v.len() {
                    }
                } else {
                }
            }
        }
        None
    }
}

/// Character positions where the grapheme clusters of `v` start.
pub open spec fn grapheme_starts_spec(s: Seq<char>) -> Seq<int> {
    grapheme_byte_starts(s).map_values(|b: usize| char_pos_of_byte(s, b as int))
}

/// The character positions where the grapheme clusters of the text start:
/// strictly increasing, all before the end, and beginning with 0 when the
/// text is not empty.
pub fn grapheme_starts(v: &Vec<char>) -> (r: Vec<usize>)
    requires
        byte_len(v@) <= usize::MAX,
    ensures
        r@.map_values(|k: usize| k as int) == grapheme_starts_spec(v@),
        forall|i: int, j: int| 0 <= i < j < r.len() ==> r[i] < r[j],
        forall|i: int| 0 <= i < r.len() ==> r[i] < v.len(),
        v.len() > 0 ==> r.len() > 0 && r[0] == 0,
        v.len() == 0 ==> r.len() == 0,
{
    let s = string_of(v);
    let offs = grapheme_offsets_of(s.as_str());
    let mut out: Vec<usize> = Vec::new();
    let mut i: usize = 0;
    while i < offs.len()
        invariant
            s@ == v@,
            byte_len(v@) <= usize::MAX,
            offs@ == grapheme_byte_starts(v@),
            forall|a: int, b: int| 0 <= a < b < offs.len() ==> offs[a] < offs[b],
            forall|a: int|
                0 <= a < offs.len() ==> offs[a] < byte_len(v@) && is_boundary(v@, offs[a] as int),
            i <= offs.len(),
            out.len() == i,
            forall|a: int|
                0 <= a < i ==> out[a] as int == char_pos_of_byte(v@, offs[a] as int) && out[a]
                    < v.len() && byte_offset(v@, out[a] as int) == offs[a],
        decreases offs.len() - i,
    {
        let k = char_pos_for_byte(v, offs[i]);
        match k {
            Some(k) => {
                proof {
                    if k == v.len() {
                        assert(v@.take(v.len() as int) =~= v@);
                    }
                }
                out.push(k);
            },
            None => {
                assert(false);
            },
        }
        i = i + 1;
    }
    proof {
        assert forall|a: int, b: int| 0 <= a < b < out.len() implies out[a] < out[b] by {
            if out[a] >= out[b] {
                lemma_byte_offset_mono(v@, out[b] as int, out[a] as int);
            }
        }
        assert(out@.map_values(|k: usize| k as int) =~= grapheme_starts_spec(v@));
        if v.len() > 0 {
            assert(v@.take(0) =~= Seq::<char>::empty());
            lemma_byte_offset_injective(v@, 0, out[0] as int);
        }
    }
    out
}

/// Whether `v` holds a newline.
pub fn has_newline(v: &Vec<char>) -> (b: bool)
    ensures
        b == v@.contains('\n'),
{
    let mut i: usize = 0;
    while i < v.len()
        invariant
            i <= v.len(),
            forall|j: int| 0 <= j < i ==> v@[j] != '\n',
        decreases v.len() - i,
    {
        if v[i] == '\n' {
            assert(v@[i as int] == '\n');
            return true;
        }
        i = i + 1;
    }
    false
}

/// Append the characters of `w` to `v`.
pub fn append_chars(v: &mut Vec<char>, w: &Vec<char>)
    ensures
        final(v)@ == old(v)@ + w@,
{
    let mut i: usize = 0;
    while i < w.len()
        invariant
            i <= w.len(),
            v@ == old(v)@ + w@.take(i as int),
        decreases w.len() - i,
    {
        v.push(w[i]);
        i = i + 1;
        assert(v@ =~= old(v)@ + w@.take(i as int));
    }
    assert(w@.take(w.len() as int) =~= w@);
}

/// The decimal digit `d` (for `d` below 10).
pub open spec fn digit_char(d: nat) -> char {
    if d == 0 {
        '0'
    } else if d == 1 {
        '1'
    } else if d == 2 {
        '2'
    } else if d == 3 {
        '3'
    } else if d == 4 {
        '4'
    } else if d == 5 {
        '5'
    } else if d == 6 {
        '6'
    } else if d == 7 {
        '7'
    } else if d == 8 {
        '8'
    } else {
        '9'
    }
}

/// The decimal representation of `n`, without leading zeros.
pub open spec fn decimal(n: nat) -> Seq<char>
    decreases n,
{
    if n < 10 {
        seq![digit_char(n)]
    } else {
        decimal(n / 10).push(digit_char(n % 10))
    }
}

fn digit(d: u64) -> (c: char)
    requires
        d < 10,
    ensures
        c == digit_char(d as nat),
{
    if d == 0 {
        '0'
    } else if d == 1 {
        '1'
    } else if d == 2 {
        '2'
    } else if d == 3 {
        '3'
    } else if d == 4 {
        '4'
    } else if d == 5 {
        '5'
    } else if d == 6 {
        '6'
    } else if d == 7 {
        '7'
    } else if d == 8 {
        '8'
    } else {
        '9'
    }
}

/// The decimal digits of `n`.
pub fn decimal_chars(n: u64) -> (v: Vec<char>)
    ensures
        v@ == decimal(n as nat),
    decreases n,
{
    let c = digit(n % 10);
    if n < 10 {
        let mut v: Vec<char> = Vec::new();
        v.push(c);
        assert(v@ =~= seq![digit_char(n as nat)]);
        v
    } else {
        let mut v = decimal_chars(n / 10);
        v.push(c);
        v
    }
}

} // verus!
