//! The editable command line: characters, a cursor, an optional selection
//! anchor, and the undo history.

use crate::history::{Snapshot, SnapshotManager, SnapView, recorded, undo_step, views, opt_view};
use crate::unicode::{
    grapheme_starts, grapheme_starts_spec,
    byte_len, byte_offset, byte_offset_of, char_pos_for_byte, char_pos_of_byte, chars_of,
    is_ascii_punct, is_ascii_punct_spec, is_boundary, is_whitespace, is_whitespace_spec,
    lemma_byte_len_concat, lemma_byte_offset_mono, lemma_byte_offset_step, str_byte_len,
    string_of, utf8_width, append_chars, decimal, decimal_chars, has_newline, chars_display_width, display_width,
};
use vstd::prelude::*;

verus! {

/// How words are delimited for word-wise motion and deletion.
#[derive(Debug, Clone, Copy, PartialEq, Eq, Structural)]
pub enum WordDelim {
    /// Only whitespace separates words.
    WhiteSpace,
    /// Whitespace and ASCII punctuation separate words.
    FineGrained,
}

/// Whether `c` separates words under `d`.
pub open spec fn is_delim(d: WordDelim, c: char) -> bool {
    match d {
        WordDelim::WhiteSpace => is_whitespace_spec(c),
        WordDelim::FineGrained => is_whitespace_spec(c) || is_ascii_punct_spec(c),
    }
}

impl WordDelim {
    /// Whether `c` separates words under this delimiter mode.
    pub fn is_word_boundary(&self, c: char) -> (b: bool)
        ensures
            b == is_delim(*self, c),
    {
        match self {
            WordDelim::WhiteSpace => is_whitespace(c),
            WordDelim::FineGrained => is_whitespace(c) || is_ascii_punct(c),
        }
    }
}

/// Leftmost position reached from `i` by stepping left over characters
/// that satisfy `p`.
pub open spec fn run_back(s: Seq<char>, i: int, p: spec_fn(char) -> bool) -> int
    decreases i,
{
    if 0 < i && i <= s.len() && p(s[i - 1]) {
        run_back(s, i - 1, p)
    } else {
        i
    }
}

/// Rightmost position reached from `i` by stepping right over characters
/// that satisfy `p`.
pub open spec fn run_fwd(s: Seq<char>, i: int, p: spec_fn(char) -> bool) -> int
    decreases s.len() - i,
{
    if 0 <= i && i < s.len() && p(s[i]) {
        run_fwd(s, i + 1, p)
    } else {
        i
    }
}

pub open spec fn delim_p(d: WordDelim) -> spec_fn(char) -> bool {
    |c: char| is_delim(d, c)
}

pub open spec fn word_p(d: WordDelim) -> spec_fn(char) -> bool {
    |c: char| !is_delim(d, c)
}

pub open spec fn ws_p() -> spec_fn(char) -> bool {
    |c: char| is_whitespace_spec(c)
}

pub open spec fn nonws_p() -> spec_fn(char) -> bool {
    |c: char| !is_whitespace_spec(c)
}

/// A path separator.
pub open spec fn is_slash(c: char) -> bool {
    c == '/' || c == '\\'
}

/// Character class for fine-grained word motion: 0 whitespace, 1 separator
/// (path separators only in slash mode, else ASCII punctuation), 2 other.
pub open spec fn char_class(slash_only: bool, c: char) -> u8 {
    if is_whitespace_spec(c) {
        0
    } else if (slash_only && is_slash(c)) || (!slash_only && is_ascii_punct_spec(c)) {
        1
    } else {
        2
    }
}

pub open spec fn class_p(slash_only: bool, k: u8) -> spec_fn(char) -> bool {
    |c: char| char_class(slash_only, c) == k
}

/// Two newlines just before position `c`.
pub open spec fn double_newline_before(s: Seq<char>, c: int) -> bool {
    c >= 2 && c <= s.len() && s[c - 2] == '\n' && s[c - 1] == '\n'
}

/// Two newlines just after position `c`.
pub open spec fn double_newline_after(s: Seq<char>, c: int) -> bool {
    0 <= c && c + 2 <= s.len() && s[c] == '\n' && s[c + 1] == '\n'
}

/// Target of a word motion to the left from `c`: between two newlines it
/// moves one line; otherwise it skips delimiters, then the word before them.
pub open spec fn word_left_target(s: Seq<char>, c: int, d: WordDelim) -> int {
    if double_newline_before(s, c) {
        c - 1
    } else {
        run_back(s, run_back(s, c, delim_p(d)), word_p(d))
    }
}

/// Target of a word motion to the right from `c`.
pub open spec fn word_right_target(s: Seq<char>, c: int, d: WordDelim) -> int {
    if double_newline_after(s, c) {
        c + 1
    } else {
        run_fwd(s, run_fwd(s, c, delim_p(d)), word_p(d))
    }
}

/// The whitespace-free word around `c` holds a `/` or `\`.
pub open spec fn has_slash_in_word_spec(s: Seq<char>, c: int) -> bool {
    exists|j: int| run_back(s, c, nonws_p()) <= j < run_fwd(s, c, nonws_p()) && is_slash(s[j])
}

/// Target of a fine-grained word motion to the left from `c`: the start of
/// the run of characters of the class of the character before `c`.
pub open spec fn fine_left_target(s: Seq<char>, c: int) -> int {
    if c <= 0 || c > s.len() {
        0
    } else {
        let so = has_slash_in_word_spec(s, c);
        run_back(s, c, class_p(so, char_class(so, s[c - 1])))
    }
}

/// Target of a fine-grained word motion to the right from `c`: the end of
/// the run of characters of the class of the character at `c`.
pub open spec fn fine_right_target(s: Seq<char>, c: int) -> int {
    if c < 0 || c >= s.len() {
        s.len() as int
    } else {
        let so = has_slash_in_word_spec(s, c);
        run_fwd(s, c + 1, class_p(so, char_class(so, s[c])))
    }
}

/// The character positions after copying: `\r\n` and lone `\r` become `\n`.
pub open spec fn sanitize_newlines(t: Seq<char>) -> Seq<char>
    decreases t.len(),
{
    if t.len() == 0 {
        t
    } else if t[0] == '\r' && t.len() >= 2 && t[1] == '\n' {
        seq!['\n'] + sanitize_newlines(t.skip(2))
    } else if t[0] == '\r' {
        seq!['\n'] + sanitize_newlines(t.skip(1))
    } else {
        seq![t[0]] + sanitize_newlines(t.skip(1))
    }
}

/// Position of the first newline at or after `c`, or the end.
pub open spec fn line_end(s: Seq<char>, c: int) -> int {
    run_fwd(s, c, |ch: char| ch != '\n')
}

/// Position just after the last newline before `c`, or 0.
pub open spec fn line_start(s: Seq<char>, c: int) -> int {
    run_back(s, c, |ch: char| ch != '\n')
}

/// Both neighbours of byte position `pos` exist and are not whitespace.
pub open spec fn inside_word(s: Seq<char>, k: int) -> bool {
    0 < k < s.len() && !is_whitespace_spec(s[k - 1]) && !is_whitespace_spec(s[k])
}

/// The characters of `s` with every cursor mark `█` removed.
pub open spec fn without_marks(s: Seq<char>) -> Seq<char>
    decreases s.len(),
{
    if s.len() == 0 {
        s
    } else {
        let rest = without_marks(s.drop_last());
        if s.last() == '\u{2588}' {
            rest
        } else {
            rest.push(s.last())
        }
    }
}

/// `k` is the position of the first cursor mark `█` in `s`.
pub open spec fn is_first_mark(s: Seq<char>, k: int) -> bool {
    &&& 0 <= k < s.len()
    &&& s[k] == '\u{2588}'
    &&& forall|j: int| 0 <= j < k ==> s[j] != '\u{2588}'
}

/// The cursor mark that `TextBuffer::new_with_cursor` reads.
pub const CURSOR_MARK: char = '\u{2588}';

/// The editable command line.
pub struct TextBuffer {
    buf: Vec<char>,
    cursor: usize,
    selection_byte: Option<usize>,
    undo_redo: SnapshotManager,
}

impl TextBuffer {
    /// The characters of the buffer.
    pub closed spec fn text(&self) -> Seq<char> {
        self.buf@
    }

    /// The cursor, as a character position (insertion happens there).
    pub closed spec fn cursor(&self) -> int {
        self.cursor as int
    }

    /// The selection anchor as a byte offset, when a selection is active.
    pub closed spec fn anchor(&self) -> Option<usize> {
        self.selection_byte
    }

    /// The undo history.
    pub closed spec fn history(&self) -> SnapshotManager {
        self.undo_redo
    }

    /// Byte offset of the cursor.
    pub open spec fn cursor_byte(&self) -> nat {
        byte_offset(self.text(), self.cursor())
    }

    /// Byte length of the buffer.
    pub open spec fn len_bytes(&self) -> nat {
        byte_len(self.text())
    }

    /// The state an undo step would save.
    pub open spec fn state(&self) -> SnapView {
        (self.text(), self.cursor(), self.anchor())
    }

    /// Cursor within the text, byte length within `usize`, usable history.
    pub closed spec fn wf(&self) -> bool {
        &&& self.cursor <= self.buf.len()
        &&& byte_len(self.buf@) <= usize::MAX
        &&& self.undo_redo.wf()
    }

    /// The anchor, if any, starts a character of the text.
    pub open spec fn anchor_ok(&self) -> bool {
        match self.anchor() {
            Some(a) => is_boundary(self.text(), a as int),
            None => true,
        }
    }

    /// The anchor as a character position (meaningful under `anchor_ok`).
    pub open spec fn anchor_pos(&self) -> int {
        char_pos_of_byte(self.text(), self.anchor().unwrap() as int)
    }

    /// The selected range of character positions, when a selection is
    /// active and not empty.
    pub open spec fn selection_chars(&self) -> Option<(int, int)> {
        match self.anchor() {
            Some(a) => if a == self.cursor_byte() {
                None
            } else {
                let p = self.anchor_pos();
                if p < self.cursor() {
                    Some((p, self.cursor()))
                } else {
                    Some((self.cursor(), p))
                }
            },
            None => None,
        }
    }

    /// A well-formed buffer has its cursor within the text and the text
    /// within its byte length.
    pub proof fn lemma_wf_facts(&self)
        requires
            self.wf(),
        ensures
            self.cursor_byte() <= self.len_bytes(),
            self.text().len() <= self.len_bytes(),
            0 <= self.cursor() <= self.text().len(),
    {
        lemma_byte_offset_mono(self.buf@, self.cursor as int, self.buf@.len() as int);
        lemma_byte_offset_mono(self.buf@, 0, self.buf@.len() as int);
        assert(self.buf@.take(self.buf@.len() as int) =~= self.buf@);
        assert(self.buf@.take(0) =~= Seq::<char>::empty());
    }

    /// A buffer holding `starting_str` with the cursor at its end, no
    /// selection and an empty history.
    pub fn new(starting_str: &str) -> (tb: Self)
        ensures
            tb.wf(),
            tb.text() == starting_str@,
            tb.cursor() == starting_str@.len(),
            tb.anchor() is None,
            tb.history().undos@.len() == 0,
            tb.history().redos@.len() == 0,
            tb.history().merge_window() == crate::history::UNDO_MERGE_WINDOW_MS,
    {
        let n = str_byte_len(starting_str);
        let buf = chars_of(starting_str);
        let cursor = buf.len();
        TextBuffer { buf, cursor, selection_byte: None, undo_redo: SnapshotManager::new() }
    }

    /// A buffer read from `starting_str`, in which `█` marks the cursor:
    /// the cursor stands where the first mark stood, every mark is removed,
    /// and there is no selection and no history.
    pub fn new_with_cursor(starting_str: &str) -> (tb: Self)
        requires
            starting_str@.contains(CURSOR_MARK),
        ensures
            tb.wf(),
            tb.text() == without_marks(starting_str@),
            is_first_mark(starting_str@, tb.cursor()),
            tb.anchor() is None,
            tb.history().undos@.len() == 0,
            tb.history().redos@.len() == 0,
            tb.history().merge_window() == crate::history::UNDO_MERGE_WINDOW_MS,
    {
        let n = str_byte_len(starting_str);
        let v = chars_of(starting_str);
        let mut buf: Vec<char> = Vec::new();
        let mut cursor: Option<usize> = None;
        let mut i: usize = 0;
        while i < v.len()
            invariant
                i <= v.len(),
                v@ == starting_str@,
                n == byte_len(v@),
                buf@ == without_marks(v@.take(i as int)),
                byte_len(buf@) <= byte_len(v@.take(i as int)),
                cursor is None ==> buf@ == v@.take(i as int),
                cursor is None ==> forall|j: int| 0 <= j < i ==> v@[j] != CURSOR_MARK,
                cursor matches Some(k) ==> k <= buf.len() && is_first_mark(v@, k as int),
            decreases v.len() - i,
        {
            let c = v[i];
            proof {
                let t = v@.take(i as int + 1);
                assert(t.drop_last() =~= v@.take(i as int));
                assert(t.last() == c);
                lemma_byte_len_concat(buf@, seq![c]);
                lemma_byte_len_concat(v@.take(i as int), seq![c]);
                assert(v@.take(i as int) + seq![c] =~= t);
                assert(buf@ + seq![c] =~= buf@.push(c));
            }
            if c == CURSOR_MARK {
                if cursor.is_none() {
                    cursor = Some(buf.len());
                }
            } else {
                buf.push(c);
            }
            i += 1;
        }
        proof {
            assert(v@.take(v@.len() as int) =~= v@);
            if cursor is None {
                let k = choose|k: int| 0 <= k < v@.len() && v@[k] == CURSOR_MARK;
                assert(v@[k] != CURSOR_MARK);
            }
        }
        let cursor = match cursor {
            Some(k) => k,
            None => 0,
        };
        TextBuffer { buf, cursor, selection_byte: None, undo_redo: SnapshotManager::new() }
    }

    /// Fold mergeable edits made within `ms` milliseconds of the previous
    /// undo step into that step (0 keeps every edit separate; the default is
    /// `UNDO_MERGE_WINDOW_MS`).
    pub fn set_undo_merge_window_ms(&mut self, ms: u64)
        requires
            old(self).wf(),
        ensures
            final(self).wf(),
            final(self).state() == old(self).state(),
            final(self).history().undos@ == old(self).history().undos@,
            final(self).history().redos@ == old(self).history().redos@,
            final(self).history().merge_window() == ms,
    {
        self.undo_redo.set_merge_window_ms(ms);
    }

    /// Current cursor byte offset.
    pub fn cursor_byte_pos(&self) -> (b: usize)
        requires
            self.wf(),
        ensures
            b == self.cursor_byte(),
    {
        byte_offset_of(&self.buf, self.cursor)
    }

    /// The buffer's text.
    pub fn buffer(&self) -> (s: String)
        ensures
            s@ == self.text(),
    {
        string_of(&self.buf)
    }

    /// Whether the cursor is at the start.
    pub fn is_cursor_at_start(&self) -> (b: bool)
        requires
            self.wf(),
        ensures
            b == (self.cursor_byte() == 0),
    {
        proof {
            assert(self.buf@.take(0) =~= Seq::<char>::empty());
            if self.cursor > 0 {
                lemma_byte_offset_mono(self.buf@, 0, self.cursor as int);
            }
        }
        self.cursor == 0
    }

    /// Whether the cursor is at the end.
    pub fn is_cursor_at_end(&self) -> (b: bool)
        requires
            self.wf(),
        ensures
            b == (self.cursor_byte() == self.len_bytes()),
    {
        proof {
            assert(self.buf@.take(self.buf@.len() as int) =~= self.buf@);
            if self.cursor < self.buf.len() {
                lemma_byte_offset_mono(self.buf@, self.cursor as int, self.buf@.len() as int);
            }
        }
        self.cursor == self.buf.len()
    }

    /// Anchor a selection at the cursor unless one is active.
    pub fn start_selection_if_none(&mut self)
        requires
            old(self).wf(),
        ensures
            final(self).wf(),
            final(self).text() == old(self).text(),
            final(self).cursor() == old(self).cursor(),
            final(self).history() == old(self).history(),
            final(self).anchor() == match old(self).anchor() {
                Some(a) => Some(a),
                None => Some(old(self).cursor_byte() as usize),
            },
            old(self).anchor_ok() ==> final(self).anchor_ok(),
    {
        if self.selection_byte.is_none() {
            let b = byte_offset_of(&self.buf, self.cursor);
            self.selection_byte = Some(b);
        }
    }

    /// Drop the selection.
    pub fn clear_selection(&mut self)
        requires
            old(self).wf(),
        ensures
            final(self).wf(),
            final(self).text() == old(self).text(),
            final(self).cursor() == old(self).cursor(),
            final(self).history() == old(self).history(),
            final(self).anchor() is None,
    {
        self.selection_byte = None;
    }

    /// The selection anchor byte offset, if a selection is active.
    pub fn selection_byte(&self) -> (r: Option<usize>)
        ensures
            r == self.anchor(),
    {
        self.selection_byte
    }

    /// The selected byte range, ordered; `None` without a selection or when
    /// the anchor sits at the cursor.
    pub fn selection_range(&self) -> (r: Option<std::ops::Range<usize>>)
        requires
            self.wf(),
        ensures
            match self.anchor() {
                None => r is None,
                Some(a) => if a == self.cursor_byte() {
                    r is None
                } else {
                    r matches Some(rg) && rg.start == if a < self.cursor_byte() {
                        a as int
                    } else {
                        self.cursor_byte() as int
                    } && rg.end == if a < self.cursor_byte() {
                        self.cursor_byte() as int
                    } else {
                        a as int
                    }
                },
            },
    {
        match self.selection_byte {
            None => None,
            Some(anchor) => {
                let c = byte_offset_of(&self.buf, self.cursor);
                if anchor == c {
                    None
                } else if anchor < c {
                    Some(anchor..c)
                } else {
                    Some(c..anchor)
                }
            },
        }
    }

    /// Select `range`, whose ends start characters of the text (or are its
    /// end): the cursor goes to its start when `cursor_is_left`, else to
    /// its end, and the anchor to the other end.
    pub fn set_selection_range(&mut self, range: std::ops::Range<usize>, cursor_is_left: bool)
        requires
            old(self).wf(),
            is_boundary(old(self).text(), range.start as int),
            is_boundary(old(self).text(), range.end as int),
        ensures
            final(self).wf(),
            final(self).anchor_ok(),
            final(self).text() == old(self).text(),
            final(self).history() == old(self).history(),
            final(self).cursor_byte() == if cursor_is_left {
                range.start
            } else {
                range.end
            },
            final(self).anchor() == Some(if cursor_is_left {
                range.end
            } else {
                range.start
            }),
    {
        let target = if cursor_is_left {
            range.start
        } else {
            range.end
        };
        let k = char_pos_for_byte(&self.buf, target);
        match k {
            Some(k) => {
                self.cursor = k;
            },
            None => {
                assert(false);
            },
        }
        if cursor_is_left {
            self.selection_byte = Some(range.end);
        } else {
            self.selection_byte = Some(range.start);
        }
    }

    /// Copy of the characters at positions `a..b`.
    fn chars_between(v: &Vec<char>, a: usize, b: usize) -> (r: Vec<char>)
        requires
            a <= b <= v.len(),
        ensures
            r@ == v@.subrange(a as int, b as int),
    {
        let mut r: Vec<char> = Vec::new();
        let mut i = a;
        while i < b
            invariant
                a <= i <= b <= v.len(),
                r@ == v@.subrange(a as int, i as int),
            decreases b - i,
        {
            r.push(v[i]);
            i = i + 1;
            assert(r@ =~= v@.subrange(a as int, i as int));
        }
        r
    }

    /// Copy of the characters at positions `a..b`.
    pub fn chars_between_pub(v: &Vec<char>, a: usize, b: usize) -> (r: Vec<char>)
        requires
            a <= b <= v.len(),
        ensures
            r@ == v@.subrange(a as int, b as int),
    {
        Self::chars_between(v, a, b)
    }

    /// The anchor as a character position.
    fn anchor_char_pos(&self) -> (k: usize)
        requires
            self.wf(),
            self.anchor() is Some,
            self.anchor_ok(),
        ensures
            k <= self.text().len(),
            k == self.anchor_pos(),
            byte_offset(self.text(), k as int) == self.anchor().unwrap(),
    {
        let a = self.selection_byte.unwrap();
        match char_pos_for_byte(&self.buf, a) {
            Some(k) => k,
            None => {
                assert(false);
                0
            },
        }
    }

    /// The selection as character positions, ordered.
    fn selection_char_range(&self) -> (r: Option<(usize, usize)>)
        requires
            self.wf(),
            self.anchor_ok(),
        ensures
            match (r, self.selection_chars()) {
                (Some(x), Some(y)) => x.0 == y.0 && x.1 == y.1 && x.0 < x.1 <= self.text().len()
                    && x.0 <= self.cursor() <= x.1,
                (None, None) => true,
                _ => false,
            },
    {
        match self.selection_byte {
            None => None,
            Some(a) => {
                let c = byte_offset_of(&self.buf, self.cursor);
                if a == c {
                    None
                } else {
                    let p = self.anchor_char_pos();
                    proof {
                        if p == self.cursor {
                        }
                    }
                    if p < self.cursor {
                        Some((p, self.cursor))
                    } else {
                        Some((self.cursor, p))
                    }
                }
            },
        }
    }

    /// The selected text, when a non-empty selection is active.
    pub fn selected_text(&self) -> (r: Option<String>)
        requires
            self.wf(),
            self.anchor_ok(),
        ensures
            match self.selection_chars() {
                None => r is None,
                Some((lo, hi)) => r matches Some(t) && t@ == self.text().subrange(lo, hi),
            },
    {
        match self.selection_char_range() {
            None => None,
            Some((lo, hi)) => {
                let v = Self::chars_between(&self.buf, lo, hi);
                Some(string_of(&v))
            },
        }
    }

    /// Select the whole buffer, cursor at the end.
    pub fn select_entire_buffer(&mut self)
        requires
            old(self).wf(),
        ensures
            final(self).wf(),
            final(self).text() == old(self).text(),
            final(self).history() == old(self).history(),
            final(self).cursor() == old(self).text().len(),
            final(self).anchor() == Some(0usize),
            final(self).anchor_ok(),
    {
        self.cursor = self.buf.len();
        self.selection_byte = Some(0);
        proof {
            assert(self.buf@.take(0) =~= Seq::<char>::empty());
            assert(byte_offset(self.buf@, 0) == 0);
        }
    }
}


fn back_over_delims(v: &Vec<char>, start: usize, d: &WordDelim) -> (r: usize)
    requires
        start <= v.len(),
    ensures
        r == run_back(v@, start as int, delim_p(*d)),
        r <= start,
{
    let mut i = start;
    while i > 0 && d.is_word_boundary(v[i - 1])
        invariant
            i <= start <= v.len(),
            run_back(v@, i as int, delim_p(*d)) == run_back(v@, start as int, delim_p(*d)),
        decreases i,
    {
        i = i - 1;
    }
    i
}

fn back_over_word(v: &Vec<char>, start: usize, d: &WordDelim) -> (r: usize)
    requires
        start <= v.len(),
    ensures
        r == run_back(v@, start as int, word_p(*d)),
        r <= start,
{
    let mut i = start;
    while i > 0 && !d.is_word_boundary(v[i - 1])
        invariant
            i <= start <= v.len(),
            run_back(v@, i as int, word_p(*d)) == run_back(v@, start as int, word_p(*d)),
        decreases i,
    {
        i = i - 1;
    }
    i
}

fn fwd_over_delims(v: &Vec<char>, start: usize, d: &WordDelim) -> (r: usize)
    requires
        start <= v.len(),
    ensures
        r == run_fwd(v@, start as int, delim_p(*d)),
        start <= r <= v.len(),
{
    let mut i = start;
    while i < v.len() && d.is_word_boundary(v[i])
        invariant
            start <= i <= v.len(),
            run_fwd(v@, i as int, delim_p(*d)) == run_fwd(v@, start as int, delim_p(*d)),
        decreases v.len() - i,
    {
        i = i + 1;
    }
    i
}

fn fwd_over_word(v: &Vec<char>, start: usize, d: &WordDelim) -> (r: usize)
    requires
        start <= v.len(),
    ensures
        r == run_fwd(v@, start as int, word_p(*d)),
        start <= r <= v.len(),
{
    let mut i = start;
    while i < v.len() && !d.is_word_boundary(v[i])
        invariant
            start <= i <= v.len(),
            run_fwd(v@, i as int, word_p(*d)) == run_fwd(v@, start as int, word_p(*d)),
        decreases v.len() - i,
    {
        i = i + 1;
    }
    i
}

/// Position reached from `start` stepping left over whitespace.
pub fn back_over_ws_pub(v: &Vec<char>, start: usize) -> (r: usize)
    requires
        start <= v.len(),
    ensures
        r == run_back(v@, start as int, ws_p()),
        r <= start,
{
    back_over_ws(v, start)
}

fn back_over_ws(v: &Vec<char>, start: usize) -> (r: usize)
    requires
        start <= v.len(),
    ensures
        r == run_back(v@, start as int, ws_p()),
        r <= start,
{
    let mut i = start;
    while i > 0 && is_whitespace(v[i - 1])
        invariant
            i <= start <= v.len(),
            run_back(v@, i as int, ws_p()) == run_back(v@, start as int, ws_p()),
        decreases i,
    {
        i = i - 1;
    }
    i
}

fn back_over_nonws(v: &Vec<char>, start: usize) -> (r: usize)
    requires
        start <= v.len(),
    ensures
        r == run_back(v@, start as int, nonws_p()),
        r <= start,
{
    let mut i = start;
    while i > 0 && !is_whitespace(v[i - 1])
        invariant
            i <= start <= v.len(),
            run_back(v@, i as int, nonws_p()) == run_back(v@, start as int, nonws_p()),
        decreases i,
    {
        i = i - 1;
    }
    i
}

pub(crate) fn fwd_over_ws(v: &Vec<char>, start: usize) -> (r: usize)
    requires
        start <= v.len(),
    ensures
        r == run_fwd(v@, start as int, ws_p()),
        start <= r <= v.len(),
{
    let mut i = start;
    while i < v.len() && is_whitespace(v[i])
        invariant
            start <= i <= v.len(),
            run_fwd(v@, i as int, ws_p()) == run_fwd(v@, start as int, ws_p()),
        decreases v.len() - i,
    {
        i = i + 1;
    }
    i
}

pub(crate) fn fwd_over_nonws(v: &Vec<char>, start: usize) -> (r: usize)
    requires
        start <= v.len(),
    ensures
        r == run_fwd(v@, start as int, nonws_p()),
        start <= r <= v.len(),
{
    let mut i = start;
    while i < v.len() && !is_whitespace(v[i])
        invariant
            start <= i <= v.len(),
            run_fwd(v@, i as int, nonws_p()) == run_fwd(v@, start as int, nonws_p()),
        decreases v.len() - i,
    {
        i = i + 1;
    }
    i
}

fn back_over_class(v: &Vec<char>, start: usize, slash_only: bool, k: u8) -> (r: usize)
    requires
        start <= v.len(),
    ensures
        r == run_back(v@, start as int, class_p(slash_only, k)),
        r <= start,
{
    let mut i = start;
    while i > 0 && char_class_of(slash_only, v[i - 1]) == k
        invariant
            i <= start <= v.len(),
            run_back(v@, i as int, class_p(slash_only, k)) == run_back(v@, start as int, class_p(slash_only, k)),
        decreases i,
    {
        i = i - 1;
    }
    i
}

fn fwd_over_class(v: &Vec<char>, start: usize, slash_only: bool, k: u8) -> (r: usize)
    requires
        start <= v.len(),
    ensures
        r == run_fwd(v@, start as int, class_p(slash_only, k)),
        start <= r <= v.len(),
{
    let mut i = start;
    while i < v.len() && char_class_of(slash_only, v[i]) == k
        invariant
            start <= i <= v.len(),
            run_fwd(v@, i as int, class_p(slash_only, k)) == run_fwd(v@, start as int, class_p(slash_only, k)),
        decreases v.len() - i,
    {
        i = i + 1;
    }
    i
}

fn back_to_line_start(v: &Vec<char>, start: usize) -> (r: usize)
    requires
        start <= v.len(),
    ensures
        r == run_back(v@, start as int, |ch: char| ch != '\n'),
        r <= start,
{
    let mut i = start;
    while i > 0 && v[i - 1] != '\n'
        invariant
            i <= start <= v.len(),
            run_back(v@, i as int, |ch: char| ch != '\n') == run_back(v@, start as int, |ch: char| ch != '\n'),
        decreases i,
    {
        i = i - 1;
    }
    i
}

fn fwd_to_line_end(v: &Vec<char>, start: usize) -> (r: usize)
    requires
        start <= v.len(),
    ensures
        r == run_fwd(v@, start as int, |ch: char| ch != '\n'),
        start <= r <= v.len(),
{
    let mut i = start;
    while i < v.len() && v[i] != '\n'
        invariant
            start <= i <= v.len(),
            run_fwd(v@, i as int, |ch: char| ch != '\n') == run_fwd(v@, start as int, |ch: char| ch != '\n'),
        decreases v.len() - i,
    {
        i = i + 1;
    }
    i
}

/// The fine-grained character class where ASCII punctuation separates.
fn less_strict_class(c: char) -> (k: u8)
    ensures
        k == char_class(false, c),
{
    if is_whitespace(c) {
        0
    } else if is_ascii_punct(c) {
        1
    } else {
        2
    }
}

/// The fine-grained character class where only path separators separate.
fn less_strict_class_slash_only(c: char) -> (k: u8)
    ensures
        k == char_class(true, c),
{
    if is_whitespace(c) {
        0
    } else if c == '/' || c == '\\' {
        1
    } else {
        2
    }
}

/// The character class used by fine-grained word motion.
fn char_class_of(slash_only: bool, c: char) -> (k: u8)
    ensures
        k == char_class(slash_only, c),
{
    if slash_only {
        less_strict_class_slash_only(c)
    } else {
        less_strict_class(c)
    }
}

/// Whether the whitespace-free word around position `c` holds a path separator.
fn has_slash_in_word(v: &Vec<char>, c: usize) -> (b: bool)
    requires
        c <= v.len(),
    ensures
        b == has_slash_in_word_spec(v@, c as int),
{
    let lo = back_over_nonws(v, c);
    let hi = fwd_over_nonws(v, c);
    let mut i = lo;
    while i < hi
        invariant
            lo <= i <= hi <= v.len(),
            lo == run_back(v@, c as int, nonws_p()),
            hi == run_fwd(v@, c as int, nonws_p()),
            forall|j: int| lo <= j < i ==> !is_slash(v@[j]),
        decreases hi - i,
    {
        if v[i] == '/' || v[i] == '\\' {
            return true;
        }
        i = i + 1;
    }
    false
}

/// Position reached by a fine-grained word motion left from `c`.
fn fine_grained_word_left_pos_from(v: &Vec<char>, c: usize) -> (r: usize)
    requires
        c <= v.len(),
    ensures
        r == fine_left_target(v@, c as int),
        r <= c,
{
    if c == 0 {
        return 0;
    }
    let so = has_slash_in_word(v, c);
    let k = char_class_of(so, v[c - 1]);
    back_over_class(v, c, so, k)
}

/// Position reached by a fine-grained word motion right from `c`.
fn fine_grained_word_right_pos_from(v: &Vec<char>, c: usize) -> (r: usize)
    requires
        c <= v.len(),
    ensures
        r == fine_right_target(v@, c as int),
        c <= r <= v.len(),
{
    if c >= v.len() {
        return v.len();
    }
    let so = has_slash_in_word(v, c);
    let k = char_class_of(so, v[c]);
    fwd_over_class(v, c + 1, so, k)
}

/// Position reached by a word motion left from `c`.
fn move_one_word_left_pos(v: &Vec<char>, c: usize, d: &WordDelim) -> (r: usize)
    requires
        c <= v.len(),
    ensures
        r == word_left_target(v@, c as int, *d),
        r <= c,
{
    if c >= 2 && v[c - 2] == '\n' && v[c - 1] == '\n' {
        return c - 1;
    }
    let p = back_over_delims(v, c, d);
    back_over_word(v, p, d)
}

/// Position reached by a word motion right from `c`.
fn move_one_word_right_pos(v: &Vec<char>, c: usize, d: &WordDelim) -> (r: usize)
    requires
        c <= v.len(),
    ensures
        r == word_right_target(v@, c as int, *d),
        c <= r <= v.len(),
{
    if c < v.len() && v.len() - c >= 2 && v[c] == '\n' && v[c + 1] == '\n' {
        return c + 1;
    }
    let p = fwd_over_delims(v, c, d);
    fwd_over_word(v, p, d)
}


/// Largest grapheme start below `c` in the increasing sequence `g`, or 0.
pub open spec fn last_below(g: Seq<int>, c: int) -> int
    decreases g.len(),
{
    if g.len() == 0 {
        0
    } else if g.last() < c {
        g.last()
    } else {
        last_below(g.drop_last(), c)
    }
}

/// Smallest grapheme start above `c` in the increasing sequence `g`, or `end`.
pub open spec fn first_above(g: Seq<int>, c: int, end: int) -> int
    decreases g.len(),
{
    if g.len() == 0 {
        end
    } else if g[0] > c {
        g[0]
    } else {
        first_above(g.drop_first(), c, end)
    }
}

/// Cursor target one grapheme to the left of `c`.
pub open spec fn grapheme_left_target(s: Seq<char>, c: int) -> int {
    last_below(grapheme_starts_spec(s), c)
}

/// Cursor target one grapheme to the right of `c`.
pub open spec fn grapheme_right_target(s: Seq<char>, c: int) -> int {
    first_above(grapheme_starts_spec(s), c, s.len() as int)
}

fn grapheme_left_pos(v: &Vec<char>, c: usize) -> (r: usize)
    requires
        c <= v.len(),
        byte_len(v@) <= usize::MAX,
    ensures
        r == grapheme_left_target(v@, c as int),
        r <= c,
{
    let g = grapheme_starts(v);
    let ghost gs = g@.map_values(|k: usize| k as int);
    let mut k = g.len();
    proof {
        assert(gs.take(k as int) =~= gs);
    }
    while k > 0 && g[k - 1] >= c
        invariant
            k <= g.len(),
            gs == g@.map_values(|k: usize| k as int),
            last_below(gs.take(k as int), c as int) == last_below(gs, c as int),
        decreases k,
    {
        proof {
            assert(gs.take(k as int).drop_last() =~= gs.take(k - 1));
        }
        k = k - 1;
    }
    if k > 0 {
        g[k - 1]
    } else {
        0
    }
}

fn grapheme_right_pos(v: &Vec<char>, c: usize) -> (r: usize)
    requires
        c <= v.len(),
        byte_len(v@) <= usize::MAX,
    ensures
        r == grapheme_right_target(v@, c as int),
        c <= r <= v.len(),
{
    let g = grapheme_starts(v);
    let ghost gs = g@.map_values(|k: usize| k as int);
    let mut k: usize = 0;
    proof {
        assert(gs.skip(0) =~= gs);
    }
    while k < g.len() && g[k] <= c
        invariant
            k <= g.len(),
            gs == g@.map_values(|k: usize| k as int),
            forall|i: int| 0 <= i < g.len() ==> g[i] < v.len(),
            first_above(gs.skip(k as int), c as int, v.len() as int) == first_above(
                gs,
                c as int,
                v.len() as int,
            ),
        decreases g.len() - k,
    {
        proof {
            assert(gs.skip(k as int).drop_first() =~= gs.skip(k + 1));
        }
        k = k + 1;
    }
    if k < g.len() {
        g[k]
    } else {
        v.len()
    }
}

/// Lowest character position whose byte offset is at least `b`, scanning from `k`.
pub open spec fn ceil_from(s: Seq<char>, b: int, k: int) -> int
    decreases s.len() - k,
{
    if 0 <= k < s.len() && byte_offset(s, k) < b {
        ceil_from(s, b, k + 1)
    } else {
        k
    }
}

/// `s` with the characters at positions `a..b` replaced by `ins`.
pub open spec fn splice(s: Seq<char>, a: int, b: int, ins: Seq<char>) -> Seq<char> {
    s.take(a) + ins + s.skip(b)
}

proof fn lemma_splice_bytes(s: Seq<char>, a: int, b: int, ins: Seq<char>)
    requires
        0 <= a <= b <= s.len(),
    ensures
        byte_len(splice(s, a, b, ins)) + byte_len(s.subrange(a, b)) == byte_len(s) + byte_len(ins),
{
    assert(s =~= s.take(a) + s.subrange(a, b) + s.skip(b));
    lemma_byte_len_concat(s.take(a) + s.subrange(a, b), s.skip(b));
    lemma_byte_len_concat(s.take(a), s.subrange(a, b));
    lemma_byte_len_concat(s.take(a) + ins, s.skip(b));
    lemma_byte_len_concat(s.take(a), ins);
}

/// The characters of `v` at positions `a..b` replaced by `ins`.
fn splice_chars(v: &Vec<char>, a: usize, b: usize, ins: &Vec<char>) -> (r: Vec<char>)
    requires
        a <= b <= v.len(),
    ensures
        r@ == splice(v@, a as int, b as int, ins@),
{
    let mut r: Vec<char> = Vec::new();
    let mut i: usize = 0;
    while i < a
        invariant
            i <= a <= b <= v.len(),
            r@ == v@.take(i as int),
        decreases a - i,
    {
        r.push(v[i]);
        i = i + 1;
        assert(r@ =~= v@.take(i as int));
    }
    let mut j: usize = 0;
    while j < ins.len()
        invariant
            j <= ins.len(),
            r@ == v@.take(a as int) + ins@.take(j as int),
        decreases ins.len() - j,
    {
        r.push(ins[j]);
        j = j + 1;
        assert(r@ =~= v@.take(a as int) + ins@.take(j as int));
    }
    assert(ins@.take(ins.len() as int) =~= ins@);
    let mut k = b;
    while k < v.len()
        invariant
            a <= b <= k <= v.len(),
            r@ == v@.take(a as int) + ins@ + v@.subrange(b as int, k as int),
        decreases v.len() - k,
    {
        r.push(v[k]);
        k = k + 1;
        assert(r@ =~= v@.take(a as int) + ins@ + v@.subrange(b as int, k as int));
    }
    assert(v@.subrange(b as int, v.len() as int) =~= v@.skip(b as int));
    r
}

/// `t` with `\r\n` and lone `\r` turned into `\n`.
fn sanitized(t: &Vec<char>) -> (r: Vec<char>)
    ensures
        r@ == sanitize_newlines(t@),
        byte_len(r@) <= byte_len(t@),
{
    let mut r: Vec<char> = Vec::new();
    let mut i: usize = 0;
    proof {
        assert(t@.skip(0) =~= t@);
        lemma_sanitize_bytes(t@);
    }
    while i < t.len()
        invariant
            i <= t.len(),
            r@ + sanitize_newlines(t@.skip(i as int)) == sanitize_newlines(t@),
        decreases t.len() - i,
    {
        let ghost rest = t@.skip(i as int);
        if t[i] == '\r' && i + 1 < t.len() && t[i + 1] == '\n' {
            proof {
                assert(rest.skip(2) =~= t@.skip(i + 2));
            }
            r.push('\n');
            i = i + 2;
        } else if t[i] == '\r' {
            proof {
                assert(rest.skip(1) =~= t@.skip(i + 1));
            }
            r.push('\n');
            i = i + 1;
        } else {
            proof {
                assert(rest.skip(1) =~= t@.skip(i + 1));
            }
            r.push(t[i]);
            i = i + 1;
        }
        proof {
            assert(r@ + sanitize_newlines(t@.skip(i as int)) =~= sanitize_newlines(t@));
        }
    }
    proof {
        assert(t@.skip(i as int) =~= Seq::<char>::empty());
        assert(r@ + Seq::<char>::empty() =~= r@);
    }
    r
}

proof fn lemma_sanitize_bytes(t: Seq<char>)
    ensures
        byte_len(sanitize_newlines(t)) <= byte_len(t),
    decreases t.len(),
{
    if t.len() > 0 {
        let head = if t[0] == '\r' && t.len() >= 2 && t[1] == '\n' {
            2int
        } else {
            1int
        };
        lemma_sanitize_bytes(t.skip(head));
        assert(t =~= t.take(head) + t.skip(head));
        lemma_byte_len_concat(t.take(head), t.skip(head));
        let first = if t[0] == '\r' {
            '\n'
        } else {
            t[0]
        };
        lemma_byte_len_concat(seq![first], sanitize_newlines(t.skip(head)));
        assert(seq![first].drop_first() =~= Seq::<char>::empty());
        assert(t.take(head).drop_first() =~= t.take(head).skip(1));
        if head == 2 {
            assert(t.take(head).skip(1).drop_first() =~= Seq::<char>::empty());
        } else {
            assert(t.take(head).drop_first() =~= Seq::<char>::empty());
        }
        assert(t.take(head)[0] == t[0]);
        assert(byte_len(t.take(head)) >= utf8_width(t[0]));
        assert(seq![first][0] == first);
        assert(byte_len(seq![first].drop_first()) == 0);
        assert(byte_len(seq![first]) == utf8_width(first));
        assert(sanitize_newlines(t) == seq![first] + sanitize_newlines(t.skip(head)));
    }
}


/// Start of the deletion made by a word-wise delete to the left of `c`:
/// two or more whitespace characters before the cursor are deleted alone;
/// otherwise the word before them goes too.
pub open spec fn delete_word_left_start(s: Seq<char>, c: int, d: WordDelim) -> int {
    let after = run_back(s, c, ws_p());
    if c - after >= 2 {
        after
    } else {
        match d {
            WordDelim::WhiteSpace => word_left_target(s, c, WordDelim::WhiteSpace),
            WordDelim::FineGrained => fine_left_target(s, after),
        }
    }
}

/// End of the deletion made by a word-wise delete to the right of `c`.
pub open spec fn delete_word_right_end(s: Seq<char>, c: int, d: WordDelim) -> int {
    let after = run_fwd(s, c, ws_p());
    if after - c >= 2 {
        after
    } else {
        match d {
            WordDelim::WhiteSpace => if c < s.len() {
                run_fwd(s, run_fwd(s, c + 1, delim_p(WordDelim::WhiteSpace)), word_p(WordDelim::WhiteSpace))
            } else {
                s.len() as int
            },
            WordDelim::FineGrained => fine_right_target(s, after),
        }
    }
}

impl TextBuffer {
    proof fn lemma_insert_bytes(s: Seq<char>, k: int, c: char)
        requires
            0 <= k <= s.len(),
        ensures
            s.insert(k, c) == splice(s, k, k, seq![c]),
            byte_len(s.insert(k, c)) == byte_len(s) + utf8_width(c),
    {
        assert(s.insert(k, c) =~= splice(s, k, k, seq![c]));
        lemma_splice_bytes(s, k, k, seq![c]);
        assert(s.subrange(k, k) =~= Seq::<char>::empty());
        assert(seq![c].drop_first() =~= Seq::<char>::empty());
        assert(byte_len(seq![c].drop_first()) == 0);
    }

    proof fn lemma_delete_bytes(s: Seq<char>, a: int, b: int)
        requires
            0 <= a <= b <= s.len(),
        ensures
            byte_len(splice(s, a, b, Seq::empty())) <= byte_len(s),
    {
        lemma_splice_bytes(s, a, b, Seq::empty());
    }

    fn left_move_pos(&self) -> (r: usize)
        requires
            self.wf(),
        ensures
            r == grapheme_left_target(self.text(), self.cursor()),
            r <= self.cursor(),
    {
        grapheme_left_pos(&self.buf, self.cursor)
    }

    fn right_move_pos(&self) -> (r: usize)
        requires
            self.wf(),
        ensures
            r == grapheme_right_target(self.text(), self.cursor()),
            self.cursor() <= r <= self.text().len(),
    {
        grapheme_right_pos(&self.buf, self.cursor)
    }

    /// Move one grapheme left; with a selection, go to its start and drop
    /// it. The start is the anchor when the anchor lies before the cursor,
    /// which then has to start a character; else it is the cursor itself.
    pub fn move_left(&mut self)
        requires
            old(self).wf(),
            old(self).anchor() matches Some(a) && a < old(self).cursor_byte() ==> old(self).anchor_ok(),
        ensures
            final(self).wf(),
            final(self).text() == old(self).text(),
            final(self).history() == old(self).history(),
            final(self).anchor() is None,
            final(self).cursor() <= old(self).cursor(),
            final(self).cursor() == match old(self).anchor() {
                Some(a) => if a == old(self).cursor_byte() {
                    grapheme_left_target(old(self).text(), old(self).cursor())
                } else if a < old(self).cursor_byte() {
                    old(self).anchor_pos()
                } else {
                    old(self).cursor() as int
                },
                None => grapheme_left_target(old(self).text(), old(self).cursor()),
            },
            old(self).anchor() matches Some(a) ==> (a < old(self).cursor_byte() ==> final(self).cursor_byte() == a),
    {
        let c = byte_offset_of(&self.buf, self.cursor);
        match self.selection_byte {
            Some(a) => {
                if a == c {
                    self.selection_byte = None;
                    self.cursor = self.left_move_pos();
                } else {
                    if a < c {
                        let k = self.anchor_char_pos();
                        proof {
                            if k >= self.cursor {
                                lemma_byte_offset_mono(self.buf@, self.cursor as int, k as int);
                            }
                        }
                        self.cursor = k;
                    }
                    self.selection_byte = None;
                }
            },
            None => {
                self.cursor = self.left_move_pos();
            },
        }
    }

    /// Move one grapheme right; with a selection, go to its end and drop
    /// it. The end is the anchor when the anchor lies after the cursor,
    /// which then has to start a character (or be the text's end); else it
    /// is the cursor itself.
    pub fn move_right(&mut self)
        requires
            old(self).wf(),
            old(self).anchor() matches Some(a) && a > old(self).cursor_byte() ==> old(self).anchor_ok(),
        ensures
            final(self).wf(),
            final(self).text() == old(self).text(),
            final(self).history() == old(self).history(),
            final(self).anchor() is None,
            final(self).cursor() >= old(self).cursor(),
            final(self).cursor() == match old(self).anchor() {
                Some(a) => if a == old(self).cursor_byte() {
                    grapheme_right_target(old(self).text(), old(self).cursor())
                } else if a > old(self).cursor_byte() {
                    old(self).anchor_pos()
                } else {
                    old(self).cursor() as int
                },
                None => grapheme_right_target(old(self).text(), old(self).cursor()),
            },
            old(self).anchor() matches Some(a) ==> (a > old(self).cursor_byte() ==> final(self).cursor_byte() == a),
    {
        let c = byte_offset_of(&self.buf, self.cursor);
        match self.selection_byte {
            Some(a) => {
                if a == c {
                    self.selection_byte = None;
                    self.cursor = self.right_move_pos();
                } else {
                    if a > c {
                        let k = self.anchor_char_pos();
                        proof {
                            if k <= self.cursor {
                                lemma_byte_offset_mono(self.buf@, k as int, self.cursor as int);
                            }
                        }
                        self.cursor = k;
                    }
                    self.selection_byte = None;
                }
            },
            None => {
                self.cursor = self.right_move_pos();
            },
        }
    }

    /// Extend the selection one grapheme to the left.
    pub fn move_left_selection(&mut self)
        requires
            old(self).wf(),
        ensures
            final(self).wf(),
            final(self).text() == old(self).text(),
            final(self).history() == old(self).history(),
            final(self).anchor() == match old(self).anchor() {
                Some(a) => Some(a),
                None => Some(old(self).cursor_byte() as usize),
            },
            final(self).cursor() == grapheme_left_target(old(self).text(), old(self).cursor()),
            old(self).anchor_ok() ==> final(self).anchor_ok(),
    {
        self.start_selection_if_none();
        self.cursor = self.left_move_pos();
    }

    /// Extend the selection one grapheme to the right.
    pub fn move_right_selection(&mut self)
        requires
            old(self).wf(),
        ensures
            final(self).wf(),
            final(self).text() == old(self).text(),
            final(self).history() == old(self).history(),
            final(self).anchor() == match old(self).anchor() {
                Some(a) => Some(a),
                None => Some(old(self).cursor_byte() as usize),
            },
            final(self).cursor() == grapheme_right_target(old(self).text(), old(self).cursor()),
            old(self).anchor_ok() ==> final(self).anchor_ok(),
    {
        self.start_selection_if_none();
        self.cursor = self.right_move_pos();
    }

    /// Move one word left.
    pub fn move_one_word_left(&mut self, delim: WordDelim)
        requires
            old(self).wf(),
        ensures
            final(self).wf(),
            final(self).text() == old(self).text(),
            final(self).anchor() == old(self).anchor(),
            final(self).history() == old(self).history(),
            final(self).cursor() == word_left_target(old(self).text(), old(self).cursor(), delim),
    {
        self.cursor = move_one_word_left_pos(&self.buf, self.cursor, &delim);
    }

    /// Move one word right.
    pub fn move_one_word_right(&mut self, delim: WordDelim)
        requires
            old(self).wf(),
        ensures
            final(self).wf(),
            final(self).text() == old(self).text(),
            final(self).anchor() == old(self).anchor(),
            final(self).history() == old(self).history(),
            final(self).cursor() == word_right_target(old(self).text(), old(self).cursor(), delim),
    {
        self.cursor = move_one_word_right_pos(&self.buf, self.cursor, &delim);
    }

    /// Whether character position `k` is strictly inside a whitespace-free word.
    fn is_inside_word(v: &Vec<char>, k: usize) -> (b: bool)
        requires
            k <= v.len(),
        ensures
            b == inside_word(v@, k as int),
    {
        k > 0 && k < v.len() && !is_whitespace(v[k - 1]) && !is_whitespace(v[k])
    }

    /// Extend the selection one whitespace-delimited word to the right; when
    /// the anchor sits inside a word left of the cursor, the anchor moves to
    /// that word's start instead.
    pub fn move_right_one_word_whitespace_extend_selection(&mut self)
        requires
            old(self).wf(),
            old(self).anchor_ok(),
        ensures
            final(self).wf(),
            final(self).anchor_ok(),
            final(self).text() == old(self).text(),
            final(self).history() == old(self).history(),
            if old(self).anchor() matches Some(a) && old(self).cursor_byte() > a && inside_word(
                old(self).text(),
                old(self).anchor_pos(),
            ) {
                &&& final(self).cursor() == old(self).cursor()
                &&& final(self).anchor() == Some(
                    byte_offset(
                        old(self).text(),
                        run_back(old(self).text(), old(self).anchor_pos(), nonws_p()),
                    ) as usize,
                )
            } else {
                &&& final(self).cursor() == word_right_target(
                    old(self).text(),
                    old(self).cursor(),
                    WordDelim::WhiteSpace,
                )
                &&& final(self).anchor() == match old(self).anchor() {
                    Some(a) => Some(a),
                    None => Some(old(self).cursor_byte() as usize),
                }
            },
    {
        if let Some(a) = self.selection_byte {
            let c = byte_offset_of(&self.buf, self.cursor);
            if c > a {
                let p = self.anchor_char_pos();
                if Self::is_inside_word(&self.buf, p) {
                    let q = back_over_nonws(&self.buf, p);
                    let qb = byte_offset_of(&self.buf, q);
                    self.selection_byte = Some(qb);
                    return;
                }
            }
        }
        self.start_selection_if_none();
        self.move_one_word_right(WordDelim::WhiteSpace);
    }

    /// Extend the selection one whitespace-delimited word to the left; when
    /// the anchor sits inside a word right of the cursor, the anchor moves to
    /// that word's end instead.
    pub fn move_left_one_word_whitespace_extend_selection(&mut self)
        requires
            old(self).wf(),
            old(self).anchor_ok(),
        ensures
            final(self).wf(),
            final(self).anchor_ok(),
            final(self).text() == old(self).text(),
            final(self).history() == old(self).history(),
            if old(self).anchor() matches Some(a) && old(self).cursor_byte() < a && inside_word(
                old(self).text(),
                old(self).anchor_pos(),
            ) {
                &&& final(self).cursor() == old(self).cursor()
                &&& final(self).anchor() == Some(
                    byte_offset(
                        old(self).text(),
                        run_fwd(old(self).text(), old(self).anchor_pos(), nonws_p()),
                    ) as usize,
                )
            } else {
                &&& final(self).cursor() == word_left_target(
                    old(self).text(),
                    old(self).cursor(),
                    WordDelim::WhiteSpace,
                )
                &&& final(self).anchor() == match old(self).anchor() {
                    Some(a) => Some(a),
                    None => Some(old(self).cursor_byte() as usize),
                }
            },
    {
        if let Some(a) = self.selection_byte {
            let c = byte_offset_of(&self.buf, self.cursor);
            if c < a {
                let p = self.anchor_char_pos();
                if Self::is_inside_word(&self.buf, p) {
                    let q = fwd_over_nonws(&self.buf, p);
                    let qb = byte_offset_of(&self.buf, q);
                    self.selection_byte = Some(qb);
                    return;
                }
            }
        }
        self.start_selection_if_none();
        self.move_one_word_left(WordDelim::WhiteSpace);
    }

    /// Move one fine-grained word left.
    pub fn move_one_word_left_fine_grained(&mut self)
        requires
            old(self).wf(),
        ensures
            final(self).wf(),
            final(self).text() == old(self).text(),
            final(self).anchor() == old(self).anchor(),
            final(self).history() == old(self).history(),
            final(self).cursor() == fine_left_target(old(self).text(), old(self).cursor()),
    {
        self.cursor = fine_grained_word_left_pos_from(&self.buf, self.cursor);
    }

    /// Move one fine-grained word right.
    pub fn move_one_word_right_fine_grained(&mut self)
        requires
            old(self).wf(),
        ensures
            final(self).wf(),
            final(self).text() == old(self).text(),
            final(self).anchor() == old(self).anchor(),
            final(self).history() == old(self).history(),
            final(self).cursor() == fine_right_target(old(self).text(), old(self).cursor()),
    {
        self.cursor = fine_grained_word_right_pos_from(&self.buf, self.cursor);
    }

    /// Move to the start of the buffer.
    pub fn move_to_start(&mut self)
        requires
            old(self).wf(),
        ensures
            final(self).wf(),
            final(self).text() == old(self).text(),
            final(self).anchor() == old(self).anchor(),
            final(self).history() == old(self).history(),
            final(self).cursor() == 0,
    {
        self.cursor = 0;
    }

    /// Move to the end of the buffer.
    pub fn move_to_end(&mut self)
        requires
            old(self).wf(),
        ensures
            final(self).wf(),
            final(self).text() == old(self).text(),
            final(self).anchor() == old(self).anchor(),
            final(self).history() == old(self).history(),
            final(self).cursor() == old(self).text().len(),
    {
        self.cursor = self.buf.len();
    }

    /// Move to the end of the current line.
    pub fn move_end_of_line(&mut self)
        requires
            old(self).wf(),
        ensures
            final(self).wf(),
            final(self).text() == old(self).text(),
            final(self).anchor() == old(self).anchor(),
            final(self).history() == old(self).history(),
            final(self).cursor() == line_end(old(self).text(), old(self).cursor()),
            old(self).cursor() <= final(self).cursor() <= old(self).text().len(),
    {
        self.cursor = fwd_to_line_end(&self.buf, self.cursor);
    }

    /// Move to the start of the current line.
    pub fn move_start_of_line(&mut self)
        requires
            old(self).wf(),
        ensures
            final(self).wf(),
            final(self).text() == old(self).text(),
            final(self).anchor() == old(self).anchor(),
            final(self).history() == old(self).history(),
            final(self).cursor() == line_start(old(self).text(), old(self).cursor()),
            final(self).cursor() <= old(self).cursor(),
    {
        self.cursor = back_to_line_start(&self.buf, self.cursor);
    }

    /// Move the cursor to byte `byte_pos`, rounded up to the next character
    /// start. With `move_past_final_cell`, a position on or past the last
    /// byte goes to the end. A position past the end is ignored.
    pub fn try_move_cursor_to_byte_pos(&mut self, byte_pos: usize, move_past_final_cell: bool)
        requires
            old(self).wf(),
        ensures
            final(self).wf(),
            final(self).text() == old(self).text(),
            final(self).anchor() == old(self).anchor(),
            final(self).history() == old(self).history(),
            final(self).cursor() == if move_past_final_cell && byte_pos + 1 >= old(
                self,
            ).len_bytes() {
                old(self).text().len() as int
            } else if byte_pos <= old(self).len_bytes() {
                ceil_from(old(self).text(), byte_pos as int, 0)
            } else {
                old(self).cursor()
            },
    {
        let n = byte_offset_of(&self.buf, self.buf.len());
        proof {
            assert(self.buf@.take(self.buf@.len() as int) =~= self.buf@);
        }
        if byte_pos >= n.saturating_sub(1) && move_past_final_cell {
            self.cursor = self.buf.len();
            return;
        }
        if byte_pos <= n {
            let mut k: usize = 0;
            let mut acc: usize = 0;
            proof {
                assert(self.buf@.take(0) =~= Seq::<char>::empty());
            }
            while k < self.buf.len() && acc < byte_pos
                invariant
                    k <= self.buf.len(),
                    byte_len(self.buf@) <= usize::MAX,
                    acc == byte_offset(self.buf@, k as int),
                    ceil_from(self.buf@, byte_pos as int, k as int) == ceil_from(
                        self.buf@,
                        byte_pos as int,
                        0,
                    ),
                decreases self.buf.len() - k,
            {
                proof {
                    lemma_byte_offset_step(self.buf@, k as int);
                    lemma_byte_offset_mono(self.buf@, k as int + 1, self.buf@.len() as int);
                }
                acc = acc + crate::unicode::char_width_bytes(self.buf[k]);
                k = k + 1;
            }
            self.cursor = k;
        }
    }

    fn create_snapshot(&self) -> (s: Snapshot)
        requires
            self.wf(),
        ensures
            s@ == self.state(),
            s.wf(),
    {
        let copy = Self::chars_between(&self.buf, 0, self.buf.len());
        proof {
            assert(self.buf@.subrange(0, self.buf@.len() as int) =~= self.buf@);
        }
        Snapshot::from_parts(copy, self.cursor, self.selection_byte)
    }

    fn push_snapshot(&mut self, merge_with_recent: bool)
        requires
            old(self).wf(),
        ensures
            final(self).wf(),
            final(self).state() == old(self).state(),
            recorded(old(self).history(), final(self).history(), old(self).state(), merge_with_recent),
    {
        let snap = self.create_snapshot();
        self.undo_redo.add_snapshot(snap, merge_with_recent);
    }

    fn insert_char_no_snapshot(&mut self, c: char)
        requires
            old(self).wf(),
            old(self).len_bytes() + 4 <= usize::MAX,
        ensures
            final(self).wf(),
            final(self).text() == old(self).text().insert(old(self).cursor(), c),
            final(self).cursor() == old(self).cursor() + 1,
            final(self).anchor() == old(self).anchor(),
            final(self).history() == old(self).history(),
    {
        proof {
            Self::lemma_insert_bytes(self.buf@, self.cursor as int, c);
            self.lemma_wf_facts();
        }
        self.buf.insert(self.cursor, c);
        self.cursor = self.cursor + 1;
    }

    fn insert_str_no_snapshot(&mut self, s: &str)
        requires
            old(self).wf(),
            old(self).len_bytes() + byte_len(s@) <= usize::MAX,
        ensures
            final(self).wf(),
            final(self).text() == splice(
                old(self).text(),
                old(self).cursor(),
                old(self).cursor(),
                sanitize_newlines(s@),
            ),
            final(self).cursor() == old(self).cursor() + sanitize_newlines(s@).len(),
            final(self).anchor() == old(self).anchor(),
            final(self).history() == old(self).history(),
    {
        let raw = chars_of(s);
        let t = sanitized(&raw);
        proof {
            lemma_splice_bytes(self.buf@, self.cursor as int, self.cursor as int, t@);
            assert(self.buf@.subrange(self.cursor as int, self.cursor as int) =~= Seq::<char>::empty());
            crate::unicode::lemma_byte_len_ge_len(t@);
            self.lemma_wf_facts();
        }
        let nb = splice_chars(&self.buf, self.cursor, self.cursor, &t);
        self.buf = nb;
        self.cursor = self.cursor + t.len();
    }

    /// Insert `c` at the cursor (a mergeable undo step).
    pub fn insert_char(&mut self, c: char)
        requires
            old(self).wf(),
            old(self).len_bytes() + 4 <= usize::MAX,
        ensures
            final(self).wf(),
            final(self).text() == old(self).text().insert(old(self).cursor(), c),
            final(self).cursor() == old(self).cursor() + 1,
            final(self).anchor() == old(self).anchor(),
            recorded(old(self).history(), final(self).history(), old(self).state(), true),
    {
        self.push_snapshot(true);
        self.insert_char_no_snapshot(c);
    }

    /// Insert `s` at the cursor with `\r\n` and `\r` turned into `\n` (a
    /// mergeable undo step).
    pub fn insert_str(&mut self, s: &str)
        requires
            old(self).wf(),
            old(self).len_bytes() + byte_len(s@) <= usize::MAX,
        ensures
            final(self).wf(),
            final(self).text() == splice(
                old(self).text(),
                old(self).cursor(),
                old(self).cursor(),
                sanitize_newlines(s@),
            ),
            final(self).cursor() == old(self).cursor() + sanitize_newlines(s@).len(),
            final(self).anchor() == old(self).anchor(),
            recorded(old(self).history(), final(self).history(), old(self).state(), true),
    {
        self.push_snapshot(true);
        self.insert_str_no_snapshot(s);
    }

    /// Insert a newline at the cursor.
    pub fn insert_newline(&mut self)
        requires
            old(self).wf(),
            old(self).len_bytes() + 4 <= usize::MAX,
        ensures
            final(self).wf(),
            final(self).text() == old(self).text().insert(old(self).cursor(), '\n'),
            final(self).cursor() == old(self).cursor() + 1,
            final(self).anchor() == old(self).anchor(),
            recorded(old(self).history(), final(self).history(), old(self).state(), true),
    {
        self.insert_char('\n');
    }

    fn delete_chars(&mut self, a: usize, b: usize)
        requires
            old(self).wf(),
            a <= b <= old(self).text().len(),
            old(self).cursor() <= old(self).text().len() - (b - a),
        ensures
            final(self).wf(),
            final(self).text() == splice(old(self).text(), a as int, b as int, Seq::empty()),
            final(self).cursor() == old(self).cursor(),
            final(self).anchor() == old(self).anchor(),
            final(self).history() == old(self).history(),
    {
        let empty: Vec<char> = Vec::new();
        proof {
            Self::lemma_delete_bytes(self.buf@, a as int, b as int);
        }
        let nb = splice_chars(&self.buf, a, b, &empty);
        self.buf = nb;
    }

    /// Delete one grapheme left of the cursor; with a selection, delete from
    /// the selection start to the cursor instead.
    pub fn delete_left(&mut self)
        requires
            old(self).wf(),
            old(self).anchor_ok(),
        ensures
            final(self).wf(),
            ({
                let t = match old(self).selection_chars() {
                    Some(r) => r.0,
                    None => grapheme_left_target(old(self).text(), old(self).cursor()),
                };
                &&& final(self).text() == splice(old(self).text(), t, old(self).cursor(), Seq::empty())
                &&& final(self).cursor() == t
            }),
            final(self).anchor() is None,
            recorded(old(self).history(), final(self).history(), old(self).state(), true),
    {
        self.push_snapshot(true);
        let old_cursor = self.cursor;
        if self.selection_byte.is_some() {
            let k = self.anchor_char_pos();
            proof {
                if k <= self.cursor {
                    lemma_byte_offset_mono(self.buf@, k as int, self.cursor as int);
                } else {
                    lemma_byte_offset_mono(self.buf@, self.cursor as int, k as int);
                }
            }
        }
        self.move_left();
        assert(self.cursor <= old_cursor);
        let c = self.cursor;
        self.cursor = 0;
        self.delete_chars(c, old_cursor);
        self.cursor = c;
    }

    /// Delete one grapheme right of the cursor.
    pub fn delete_right(&mut self)
        requires
            old(self).wf(),
        ensures
            final(self).wf(),
            final(self).text() == splice(
                old(self).text(),
                old(self).cursor(),
                grapheme_right_target(old(self).text(), old(self).cursor()),
                Seq::empty(),
            ),
            final(self).cursor() == old(self).cursor(),
            final(self).anchor() == old(self).anchor(),
            recorded(old(self).history(), final(self).history(), old(self).state(), true),
    {
        self.push_snapshot(true);
        let r = self.right_move_pos();
        let c = self.cursor;
        self.cursor = 0;
        self.delete_chars(c, r);
        self.cursor = c;
    }

    /// Delete one word left of the cursor (see `delete_word_left_start`).
    pub fn delete_one_word_left(&mut self, delim: WordDelim)
        requires
            old(self).wf(),
        ensures
            final(self).wf(),
            final(self).text() == splice(
                old(self).text(),
                delete_word_left_start(old(self).text(), old(self).cursor(), delim),
                old(self).cursor(),
                Seq::empty(),
            ),
            final(self).cursor() == delete_word_left_start(old(self).text(), old(self).cursor(), delim),
            final(self).anchor() == old(self).anchor(),
            recorded(old(self).history(), final(self).history(), old(self).state(), true),
    {
        self.push_snapshot(true);
        let old_cursor = self.cursor;
        let after = back_over_ws(&self.buf, old_cursor);
        let new_cursor = if old_cursor - after >= 2 {
            after
        } else {
            match delim {
                WordDelim::WhiteSpace => move_one_word_left_pos(&self.buf, old_cursor, &WordDelim::WhiteSpace),
                WordDelim::FineGrained => fine_grained_word_left_pos_from(&self.buf, after),
            }
        };
        self.cursor = 0;
        self.delete_chars(new_cursor, old_cursor);
        self.cursor = new_cursor;
    }

    /// Delete one word right of the cursor (see `delete_word_right_end`).
    pub fn delete_right_one_word(&mut self, delim: WordDelim)
        requires
            old(self).wf(),
        ensures
            final(self).wf(),
            final(self).text() == splice(
                old(self).text(),
                old(self).cursor(),
                delete_word_right_end(old(self).text(), old(self).cursor(), delim),
                Seq::empty(),
            ),
            final(self).cursor() == old(self).cursor(),
            final(self).anchor() == old(self).anchor(),
            recorded(old(self).history(), final(self).history(), old(self).state(), true),
    {
        self.push_snapshot(true);
        let c = self.cursor;
        let after = fwd_over_ws(&self.buf, c);
        let end = if after - c >= 2 {
            after
        } else {
            match delim {
                WordDelim::WhiteSpace => if c < self.buf.len() {
                    let p = fwd_over_delims(&self.buf, c + 1, &WordDelim::WhiteSpace);
                    fwd_over_word(&self.buf, p, &WordDelim::WhiteSpace)
                } else {
                    self.buf.len()
                },
                WordDelim::FineGrained => fine_grained_word_right_pos_from(&self.buf, after),
            }
        };
        self.cursor = 0;
        self.delete_chars(c, end);
        self.cursor = c;
    }

    /// Replace the whole buffer, cursor at the end (an undo step of its own).
    pub fn replace_buffer(&mut self, new_buffer: &str)
        requires
            old(self).wf(),
        ensures
            final(self).wf(),
            final(self).text() == new_buffer@,
            final(self).cursor() == new_buffer@.len(),
            final(self).anchor() == old(self).anchor(),
            recorded(old(self).history(), final(self).history(), old(self).state(), false),
    {
        self.push_snapshot(false);
        let n = str_byte_len(new_buffer);
        self.buf = chars_of(new_buffer);
        self.cursor = self.buf.len();
    }

    /// Delete from the start of the line to the cursor.
    pub fn delete_until_start_of_line(&mut self)
        requires
            old(self).wf(),
        ensures
            final(self).wf(),
            final(self).text() == splice(
                old(self).text(),
                line_start(old(self).text(), old(self).cursor()),
                old(self).cursor(),
                Seq::empty(),
            ),
            final(self).cursor() == line_start(old(self).text(), old(self).cursor()),
            final(self).anchor() == old(self).anchor(),
            recorded(old(self).history(), final(self).history(), old(self).state(), true),
    {
        self.push_snapshot(true);
        let old_cursor = self.cursor;
        self.move_start_of_line();
        let c = self.cursor;
        self.cursor = 0;
        self.delete_chars(c, old_cursor);
        self.cursor = c;
    }

    /// Delete from the cursor to the end of the line.
    pub fn delete_until_end_of_line(&mut self)
        requires
            old(self).wf(),
        ensures
            final(self).wf(),
            final(self).text() == splice(
                old(self).text(),
                old(self).cursor(),
                line_end(old(self).text(), old(self).cursor()),
                Seq::empty(),
            ),
            final(self).cursor() == old(self).cursor(),
            final(self).anchor() == old(self).anchor(),
            recorded(old(self).history(), final(self).history(), old(self).state(), true),
    {
        self.push_snapshot(true);
        let old_cursor = self.cursor;
        self.move_end_of_line();
        let e = self.cursor;
        self.cursor = 0;
        self.delete_chars(old_cursor, e);
        self.cursor = old_cursor;
    }
}

proof fn lemma_offset_after_insert(s: Seq<char>, k: int, c: char)
    requires
        0 <= k <= s.len(),
    ensures
        byte_offset(s.insert(k, c), k + 1) == byte_offset(s, k) + utf8_width(c),
{
    let t = s.insert(k, c);
    assert(t.take(k + 1) =~= s.take(k) + seq![c]);
    lemma_byte_len_concat(s.take(k), seq![c]);
    assert(seq![c].drop_first() =~= Seq::<char>::empty());
    assert(byte_len(seq![c].drop_first()) == 0);
}

proof fn lemma_offset_prefix(s: Seq<char>, t: Seq<char>, k: int)
    requires
        0 <= k <= s.len(),
        k <= t.len(),
        s.take(k) == t.take(k),
    ensures
        byte_offset(s, k) == byte_offset(t, k),
{
}

impl TextBuffer {
    /// Delete the selected text, leaving the cursor at its start and no
    /// selection (an undo step of its own). Without a non-empty selection
    /// only the anchor is dropped. Returns whether text was deleted.
    pub fn delete_selection(&mut self) -> (b: bool)
        requires
            old(self).wf(),
            old(self).anchor_ok(),
        ensures
            final(self).wf(),
            final(self).anchor() is None,
            b == old(self).selection_chars() is Some,
            match old(self).selection_chars() {
                None => {
                    &&& final(self).text() == old(self).text()
                    &&& final(self).cursor() == old(self).cursor()
                    &&& final(self).history() == old(self).history()
                },
                Some((lo, hi)) => {
                    &&& final(self).text() == splice(old(self).text(), lo, hi, Seq::empty())
                    &&& final(self).cursor() == lo
                    &&& recorded(old(self).history(), final(self).history(), old(self).state(), false)
                },
            },
    {
        match self.selection_char_range() {
            None => {
                self.selection_byte = None;
                false
            },
            Some((lo, hi)) => {
                self.push_snapshot(false);
                self.cursor = 0;
                self.delete_chars(lo, hi);
                self.cursor = lo;
                self.selection_byte = None;
                true
            },
        }
    }

    /// Put `open` before and `close` after the selected text (an undo step
    /// of its own); the selection then covers the same text, with the cursor
    /// just after it. Without a non-empty selection nothing changes.
    /// Returns whether the text was surrounded.
    pub fn surround_selection(&mut self, open: char, close: char) -> (b: bool)
        requires
            old(self).wf(),
            old(self).anchor_ok(),
            old(self).len_bytes() + 8 <= usize::MAX,
        ensures
            final(self).wf(),
            final(self).anchor_ok(),
            b == old(self).selection_chars() is Some,
            match old(self).selection_chars() {
                None => {
                    &&& final(self).state() == old(self).state()
                    &&& final(self).history() == old(self).history()
                },
                Some((lo, hi)) => {
                    &&& final(self).text() == splice(
                        old(self).text(),
                        lo,
                        hi,
                        seq![open] + old(self).text().subrange(lo, hi) + seq![close],
                    )
                    &&& final(self).cursor() == hi + 1
                    &&& final(self).anchor() == Some(
                        (byte_offset(old(self).text(), lo) + utf8_width(open)) as usize,
                    )
                    &&& recorded(old(self).history(), final(self).history(), old(self).state(), false)
                },
            },
    {
        match self.selection_char_range() {
            None => false,
            Some((lo, hi)) => {
                self.push_snapshot(false);
                let ghost t0 = self.buf@;
                let start_byte = byte_offset_of(&self.buf, lo);
                let inner = Self::chars_between(&self.buf, lo, hi);
                let mut ins: Vec<char> = Vec::new();
                ins.push(open);
                append_chars(&mut ins, &inner);
                ins.push(close);
                proof {
                    assert(ins@ =~= seq![open] + t0.subrange(lo as int, hi as int) + seq![close]);
                    lemma_splice_bytes(t0, lo as int, hi as int, ins@);
                    lemma_byte_len_concat(seq![open] + t0.subrange(lo as int, hi as int), seq![close]);
                    lemma_byte_len_concat(seq![open], t0.subrange(lo as int, hi as int));
                    assert(seq![open].drop_first() =~= Seq::<char>::empty());
                    assert(seq![close].drop_first() =~= Seq::<char>::empty());
                    assert(byte_len(Seq::<char>::empty()) == 0);
                    self.lemma_wf_facts();
                }
                let nb = splice_chars(&self.buf, lo, hi, &ins);
                let w = crate::unicode::char_width_bytes(open);
                proof {
                    let t1 = nb@;
                    assert(t1.take(lo as int + 1) =~= t0.insert(lo as int, open).take(lo as int + 1));
                    lemma_offset_after_insert(t0, lo as int, open);
                    lemma_offset_prefix(t1, t0.insert(lo as int, open), lo as int + 1);
                    lemma_byte_offset_mono(t0, lo as int, t0.len() as int);
                }
                self.buf = nb;
                self.cursor = hi + 1;
                self.selection_byte = Some(start_byte + w);
                true
            },
        }
    }

    /// Select the whitespace-delimited word around the cursor: the anchor
    /// goes to where a word motion left would stop and the cursor to where a
    /// word motion right would stop. Returns the selected byte range.
    pub fn select_word(&mut self) -> (r: std::ops::Range<usize>)
        requires
            old(self).wf(),
            old(self).text().len() > 0,
        ensures
            final(self).wf(),
            final(self).anchor_ok(),
            final(self).text() == old(self).text(),
            final(self).history() == old(self).history(),
            ({
                let lo = word_left_target(old(self).text(), old(self).cursor(), WordDelim::WhiteSpace);
                let hi = word_right_target(old(self).text(), old(self).cursor(), WordDelim::WhiteSpace);
                &&& lo < hi
                &&& final(self).cursor() == hi
                &&& final(self).anchor() == Some(byte_offset(old(self).text(), lo) as usize)
                &&& r.start == byte_offset(old(self).text(), lo)
                &&& r.end == byte_offset(old(self).text(), hi)
            }),
    {
        let c = self.cursor;
        let lo = move_one_word_left_pos(&self.buf, c, &WordDelim::WhiteSpace);
        let hi = move_one_word_right_pos(&self.buf, c, &WordDelim::WhiteSpace);
        proof {
            let s = self.buf@;
            let d = WordDelim::WhiteSpace;
            if c == 0 {
                assert(run_back(s, 0, delim_p(d)) == 0);
                assert(run_back(s, 0, word_p(d)) == 0);
                if !double_newline_after(s, 0) {
                    let p = run_fwd(s, 0, delim_p(d));
                    if is_delim(d, s[0]) {
                        assert(delim_p(d)(s[0]));
                        assert(p == run_fwd(s, 1, delim_p(d)));
                        lemma_run_fwd_ge(s, 1, delim_p(d));
                        lemma_run_fwd_ge(s, p, word_p(d));
                    } else {
                        assert(p == 0);
                        assert(word_p(d)(s[0]));
                        lemma_run_fwd_ge(s, 1, word_p(d));
                    }
                }
            } else if !double_newline_before(s, c as int) {
                let p = run_back(s, c as int, delim_p(d));
                lemma_run_back_le(s, c as int, delim_p(d));
                lemma_run_back_le(s, p, word_p(d));
                if delim_p(d)(s[c - 1]) {
                    assert(p == run_back(s, c - 1, delim_p(d)));
                    lemma_run_back_le(s, c - 1, delim_p(d));
                } else {
                    assert(p == c);
                    assert(word_p(d)(s[c - 1]));
                    assert(run_back(s, p, word_p(d)) == run_back(s, c - 1, word_p(d)));
                    lemma_run_back_le(s, c - 1, word_p(d));
                }
            }
        }
        let lb = byte_offset_of(&self.buf, lo);
        let hb = byte_offset_of(&self.buf, hi);
        self.selection_byte = Some(lb);
        self.cursor = hi;
        proof {
            lemma_byte_offset_mono(self.buf@, lo as int, hi as int);
        }
        lb..hb
    }

    /// Whether only whitespace follows the cursor.
    pub fn is_cursor_at_trimmed_end(&self) -> (b: bool)
        requires
            self.wf(),
        ensures
            b == (self.cursor() >= run_back(self.text(), self.text().len() as int, ws_p())),
    {
        let t = back_over_ws(&self.buf, self.buf.len());
        self.cursor >= t
    }

    /// Whether no newline follows the cursor.
    pub fn is_cursor_on_final_line(&self) -> (b: bool)
        requires
            self.wf(),
        ensures
            b == (forall|j: int| self.cursor() <= j < self.text().len() ==> self.text()[j] != '\n'),
    {
        let mut i = self.cursor;
        while i < self.buf.len()
            invariant
                self.cursor <= i <= self.buf.len(),
                forall|j: int| self.cursor <= j < i ==> self.buf@[j] != '\n',
            decreases self.buf.len() - i,
        {
            if self.buf[i] == '\n' {
                assert(self.cursor() <= i as int && (i as int) < self.text().len() && self.text()[i as int] == '\n');
                return false;
            }
            i = i + 1;
        }
        true
    }

    fn restore(&mut self, snap: Snapshot)
        requires
            old(self).wf(),
            snap.wf(),
        ensures
            final(self).wf(),
            final(self).state() == snap@,
            final(self).history() == old(self).history(),
    {
        let (b, c, a) = snap.into_parts();
        self.buf = b;
        self.cursor = c;
        self.selection_byte = a;
    }

    /// Go back to the state saved by the newest undo step (see `undo_step`);
    /// the current state becomes redoable.
    pub fn undo(&mut self)
        requires
            old(self).wf(),
        ensures
            final(self).wf(),
            final(self).history().merge_window() == old(self).history().merge_window(),
            ({
                let st = undo_step(
                    views(old(self).history().undos@),
                    views(old(self).history().redos@),
                    old(self).state(),
                );
                &&& views(final(self).history().undos@) == st.0
                &&& views(final(self).history().redos@) == st.1
                &&& final(self).state() == match st.2 {
                    Some(v) => v,
                    None => old(self).state(),
                }
            }),
    {
        let cur = self.create_snapshot();
        match self.undo_redo.prev_snapshot(cur) {
            Some(snap) => self.restore(snap),
            None => {},
        }
    }

    /// Go forward to the state saved by the newest redo step; the current
    /// state becomes undoable again.
    pub fn redo(&mut self)
        requires
            old(self).wf(),
        ensures
            final(self).wf(),
            final(self).history().merge_window() == old(self).history().merge_window(),
            ({
                let st = undo_step(
                    views(old(self).history().redos@),
                    views(old(self).history().undos@),
                    old(self).state(),
                );
                &&& views(final(self).history().redos@) == st.0
                &&& views(final(self).history().undos@) == st.1
                &&& final(self).state() == match st.2 {
                    Some(v) => v,
                    None => old(self).state(),
                }
            }),
    {
        let cur = self.create_snapshot();
        match self.undo_redo.next_snapshot(cur) {
            Some(snap) => self.restore(snap),
            None => {},
        }
    }
}

/// Undo right after an edit that changed the buffer, and that was recorded
/// as an undo step of its own (not merged into the previous one), brings
/// back the text, the cursor and the selection from before the edit.
/// `edited` is the buffer after the edit, `undone` the buffer after `undo`
/// on it.
pub proof fn law_undo_restores_state(before: TextBuffer, edited: TextBuffer, undone: TextBuffer, merge: bool)
    requires
        recorded(before.history(), edited.history(), before.state(), merge),
        !merge || before.history().merge_window() == 0,
        edited.state() != before.state(),
        undone.state() == match undo_step(
            views(edited.history().undos@),
            views(edited.history().redos@),
            edited.state(),
        ).2 {
            Some(v) => v,
            None => edited.state(),
        },
    ensures
        undone.state() == before.state(),
{
    crate::history::law_undo_reverts_edit(before.history(), edited.history(), before.state(), edited.state(), merge);
}

pub proof fn lemma_run_back_le(s: Seq<char>, i: int, p: spec_fn(char) -> bool)
    ensures
        run_back(s, i, p) <= i,
        0 <= i ==> 0 <= run_back(s, i, p),
    decreases i,
{
    if 0 < i && i <= s.len() && p(s[i - 1]) {
        lemma_run_back_le(s, i - 1, p);
    }
}

pub proof fn lemma_run_fwd_ge(s: Seq<char>, i: int, p: spec_fn(char) -> bool)
    ensures
        run_fwd(s, i, p) >= i,
        i <= s.len() ==> run_fwd(s, i, p) <= s.len(),
    decreases s.len() - i,
{
    if 0 <= i && i < s.len() && p(s[i]) {
        lemma_run_fwd_ge(s, i + 1, p);
    }
}

/// End (exclusive) of grapheme cluster `i`, whose starts are `g`.
pub open spec fn seg_end(s: Seq<char>, g: Seq<int>, i: int) -> int {
    if i + 1 < g.len() {
        g[i + 1]
    } else {
        s.len() as int
    }
}

/// The characters of grapheme cluster `i`.
pub open spec fn segment(s: Seq<char>, g: Seq<int>, i: int) -> Seq<char> {
    s.subrange(g[i], seg_end(s, g, i))
}

/// Row and display column reached after the first `n` grapheme clusters:
/// a cluster holding a newline starts a new row, any other adds its width.
pub open spec fn pos_after(s: Seq<char>, g: Seq<int>, n: nat) -> (int, int)
    decreases n,
{
    if n == 0 {
        (0, 0)
    } else {
        let p = pos_after(s, g, (n - 1) as nat);
        let seg = segment(s, g, n - 1);
        if seg.contains('\n') {
            (p.0 + 1, 0)
        } else {
            (p.0, p.1 + display_width(seg))
        }
    }
}

/// Number of leading entries of `g` below `c`.
pub open spec fn count_below(g: Seq<int>, c: int) -> nat
    decreases g.len(),
{
    if g.len() > 0 && g[0] < c {
        1 + count_below(g.drop_first(), c)
    } else {
        0
    }
}

/// Row and display column of character position `c`.
pub open spec fn cursor_2d_spec(s: Seq<char>, c: int) -> (int, int) {
    let g = grapheme_starts_spec(s);
    pos_after(s, g, count_below(g, c))
}

/// Where a move to row `tr`, column `tc` lands, scanning clusters from `i`
/// at row `row`, column `col`: the first cluster start on row `tr` at or
/// past column `tc`, else the newline ending row `tr`, else the end.
pub open spec fn move_target(
    s: Seq<char>,
    g: Seq<int>,
    tr: int,
    tc: int,
    i: int,
    row: int,
    col: int,
) -> int
    decreases g.len() - i,
{
    if i < 0 || i >= g.len() {
        s.len() as int
    } else if row == tr && col >= tc {
        g[i]
    } else if segment(s, g, i).contains('\n') {
        if row == tr {
            g[i]
        } else {
            move_target(s, g, tr, tc, i + 1, row + 1, 0)
        }
    } else {
        move_target(s, g, tr, tc, i + 1, row, col + display_width(segment(s, g, i)))
    }
}

/// Cursor target of a move to row `tr`, column `tc`.
pub open spec fn goto_target(s: Seq<char>, tr: int, tc: int) -> int {
    move_target(s, grapheme_starts_spec(s), tr, tc, 0, 0, 0)
}

/// Grapheme starts as the ordered positions the spec speaks of.
pub open spec fn starts_ok(s: Seq<char>, g: Seq<usize>) -> bool {
    &&& g.map_values(|k: usize| k as int) == grapheme_starts_spec(s)
    &&& forall|i: int, j: int| 0 <= i < j < g.len() ==> g[i] < g[j]
    &&& forall|i: int| 0 <= i < g.len() ==> g[i] < s.len()
    &&& s.len() > 0 ==> g.len() > 0 && g[0] == 0
    &&& s.len() == 0 ==> g.len() == 0
}

/// The characters of cluster `i`, with its end position.
fn cluster(v: &Vec<char>, g: &Vec<usize>, i: usize) -> (r: (Vec<char>, usize))
    requires
        starts_ok(v@, g@),
        i < g.len(),
    ensures
        r.1 == seg_end(v@, g@.map_values(|k: usize| k as int), i as int),
        g[i as int] < r.1 <= v.len(),
        r.0@ == segment(v@, g@.map_values(|k: usize| k as int), i as int),
{
    let ghost gs = g@.map_values(|k: usize| k as int);
    let e = if i + 1 < g.len() {
        g[i + 1]
    } else {
        v.len()
    };
    let seg = TextBuffer::chars_between(v, g[i], e);
    (seg, e)
}

impl TextBuffer {
    /// Row (newlines before the cursor) and display column of the cursor.
    pub fn cursor_2d_position(&self) -> (r: (usize, usize))
        requires
            self.wf(),
            3 * self.text().len() <= usize::MAX,
        ensures
            (r.0 as int, r.1 as int) == cursor_2d_spec(self.text(), self.cursor()),
            r.0 <= self.text().len(),
    {
        proof {
            self.lemma_wf_facts();
        }
        let g = grapheme_starts(&self.buf);
        let ghost gs = g@.map_values(|k: usize| k as int);
        let mut row: usize = 0;
        let mut col: usize = 0;
        let mut i: usize = 0;
        proof {
            assert(gs.skip(0) =~= gs);
        }
        while i < g.len() && g[i] < self.cursor
            invariant
                self.wf(),
                3 * self.buf@.len() <= usize::MAX,
                starts_ok(self.buf@, g@),
                gs == g@.map_values(|k: usize| k as int),
                i <= g.len(),
                (row as int, col as int) == pos_after(self.buf@, gs, i as nat),
                count_below(gs.skip(i as int), self.cursor as int) + i == count_below(gs, self.cursor as int),
                row <= i,
                i < g.len() ==> col <= 3 * g[i as int],
                col <= 3 * self.buf@.len(),
            decreases g.len() - i,
        {
            let (seg, e) = cluster(&self.buf, &g, i);
            proof {
                assert(gs.skip(i as int)[0] == gs[i as int]);
                assert(gs.skip(i as int).drop_first() =~= gs.skip(i + 1));
            }
            if has_newline(&seg) {
                row = row + 1;
                col = 0;
            } else {
                let w = chars_display_width(&seg);
                col = col + w;
            }
            i = i + 1;
            proof {
                if i < g.len() {
                    assert(e == g[i as int]);
                }
            }
        }
        proof {
            if i < g.len() {
                assert(gs.skip(i as int)[0] == gs[i as int]);
            }
            assert(count_below(gs.skip(i as int), self.cursor as int) == 0);
            lemma_increasing_len(g@, self.buf@.len() as int);
        }
        (row, col)
    }

    /// Row of the cursor.
    pub fn cursor_row(&self) -> (r: usize)
        requires
            self.wf(),
            3 * self.text().len() <= usize::MAX,
        ensures
            r as int == cursor_2d_spec(self.text(), self.cursor()).0,
    {
        self.cursor_2d_position().0
    }

    fn move_to_cursor_pos(&mut self, target_row: usize, target_col: usize)
        requires
            old(self).wf(),
            3 * old(self).text().len() <= usize::MAX,
        ensures
            final(self).wf(),
            final(self).text() == old(self).text(),
            final(self).anchor() == old(self).anchor(),
            final(self).history() == old(self).history(),
            final(self).cursor() == goto_target(old(self).text(), target_row as int, target_col as int),
    {
        self.cursor = goto_pos(&self.buf, target_row, target_col);
    }

    /// Move to the row above, as near the current column as the row allows.
    pub fn move_line_up(&mut self)
        requires
            old(self).wf(),
            3 * old(self).text().len() <= usize::MAX,
        ensures
            final(self).wf(),
            final(self).text() == old(self).text(),
            final(self).anchor() == old(self).anchor(),
            final(self).history() == old(self).history(),
            ({
                let p = cursor_2d_spec(old(self).text(), old(self).cursor());
                final(self).cursor() == goto_target(
                    old(self).text(),
                    if p.0 >= 1 { p.0 - 1 } else { 0 },
                    p.1,
                )
            }),
    {
        let (row, col) = self.cursor_2d_position();
        let target_row = if row >= 1 {
            row - 1
        } else {
            0
        };
        self.move_to_cursor_pos(target_row, col);
    }

    /// Move to the row below, as near the current column as the row allows.
    pub fn move_line_down(&mut self)
        requires
            old(self).wf(),
            3 * old(self).text().len() <= usize::MAX,
        ensures
            final(self).wf(),
            final(self).text() == old(self).text(),
            final(self).anchor() == old(self).anchor(),
            final(self).history() == old(self).history(),
            ({
                let p = cursor_2d_spec(old(self).text(), old(self).cursor());
                final(self).cursor() == goto_target(old(self).text(), p.0 + 1, p.1)
            }),
    {
        let (row, col) = self.cursor_2d_position();
        self.move_to_cursor_pos(row + 1, col);
    }
}

proof fn lemma_increasing_ge(g: Seq<usize>, k: int)
    requires
        forall|i: int, j: int| 0 <= i < j < g.len() ==> g[i] < g[j],
        0 <= k < g.len(),
    ensures
        g[k] >= k,
    decreases k,
{
    if k > 0 {
        lemma_increasing_ge(g, k - 1);
        assert(g[k - 1] < g[k]);
    }
}

/// Strictly increasing positions below `n` number at most `n`.
proof fn lemma_increasing_len(g: Seq<usize>, n: int)
    requires
        forall|i: int, j: int| 0 <= i < j < g.len() ==> g[i] < g[j],
        forall|i: int| 0 <= i < g.len() ==> g[i] < n,
        n >= 0,
    ensures
        g.len() <= n,
{
    if g.len() > 0 {
        lemma_increasing_ge(g, g.len() - 1);
    }
}

/// Position reached by a move to row `tr`, column `tc`.
fn goto_pos(v: &Vec<char>, tr: usize, tc: usize) -> (r: usize)
    requires
        byte_len(v@) <= usize::MAX,
        3 * v@.len() <= usize::MAX,
    ensures
        r == goto_target(v@, tr as int, tc as int),
        r <= v.len(),
{
    let g = grapheme_starts(v);
    let ghost gs = g@.map_values(|k: usize| k as int);
    let mut row: usize = 0;
    let mut col: usize = 0;
    let mut i: usize = 0;
    while i < g.len()
        invariant
            byte_len(v@) <= usize::MAX,
            3 * v@.len() <= usize::MAX,
            starts_ok(v@, g@),
            gs == g@.map_values(|k: usize| k as int),
            i <= g.len(),
            row <= i,
            i < g.len() ==> col <= 3 * g[i as int],
            col <= 3 * v@.len(),
            move_target(v@, gs, tr as int, tc as int, i as int, row as int, col as int)
                == goto_target(v@, tr as int, tc as int),
        decreases g.len() - i,
    {
        if row == tr && col >= tc {
            return g[i];
        }
        let (seg, e) = cluster(v, &g, i);
        if has_newline(&seg) {
            if row == tr {
                return g[i];
            }
            row = row + 1;
            col = 0;
        } else {
            let w = chars_display_width(&seg);
            col = col + w;
        }
        i = i + 1;
        proof {
            if i < g.len() {
                assert(e == g[i as int]);
            }
        }
    }
    v.len()
}

/// Why an edit addressed by a `SubString` was refused.
#[derive(Debug, Clone, PartialEq, Eq)]
pub enum EditError {
    /// The byte range does not lie on character boundaries of the text.
    NotInBuffer,
    /// The text at the range differs from the expected word; the message
    /// names both.
    WordMismatch(String),
    /// The range of the expected word does not lie on character boundaries
    /// of the buffer.
    OutOfBounds(String),
}

/// "Expected word '<expected>' at position <pos>, but found '<found>'".
pub open spec fn mismatch_message(expected: Seq<char>, pos: nat, found: Seq<char>) -> Seq<char> {
    "Expected word '"@ + expected + "' at position "@ + decimal(pos) + ", but found '"@ + found
        + "'"@
}

/// "Expected word '<expected>' at position <pos>, but the range was out of bounds".
pub open spec fn out_of_bounds_message(expected: Seq<char>, pos: nat) -> Seq<char> {
    "Expected word '"@ + expected + "' at position "@ + decimal(pos)
        + ", but the range was out of bounds"@
}

/// The text of `EditError::NotInBuffer`.
pub open spec fn not_in_buffer_message() -> Seq<char> {
    "Substring not found in buffer"@
}

impl EditError {
    /// The error's message.
    pub fn message(&self) -> (m: String)
        ensures
            m@ == match self {
                EditError::NotInBuffer => not_in_buffer_message(),
                EditError::WordMismatch(t) => t@,
                EditError::OutOfBounds(t) => t@,
            },
    {
        match self {
            EditError::NotInBuffer => "Substring not found in buffer".to_owned(),
            EditError::WordMismatch(t) => t.clone(),
            EditError::OutOfBounds(t) => t.clone(),
        }
    }
}

fn mismatch_text(expected: &str, pos: usize, found: &Vec<char>) -> (m: String)
    ensures
        m@ == mismatch_message(expected@, pos as nat, found@),
{
    let mut v = chars_of("Expected word '");
    append_chars(&mut v, &chars_of(expected));
    append_chars(&mut v, &chars_of("' at position "));
    append_chars(&mut v, &decimal_chars(pos as u64));
    append_chars(&mut v, &chars_of(", but found '"));
    append_chars(&mut v, found);
    append_chars(&mut v, &chars_of("'"));
    string_of(&v)
}

fn out_of_bounds_text(expected: &str, pos: usize) -> (m: String)
    ensures
        m@ == out_of_bounds_message(expected@, pos as nat),
{
    let mut v = chars_of("Expected word '");
    append_chars(&mut v, &chars_of(expected));
    append_chars(&mut v, &chars_of("' at position "));
    append_chars(&mut v, &decimal_chars(pos as u64));
    append_chars(&mut v, &chars_of(", but the range was out of bounds"));
    string_of(&v)
}

/// A piece of text expected at byte offset `start` of some buffer.
#[derive(Debug, Clone, PartialEq, Eq)]
pub struct SubString {
    /// The expected text.
    pub s: String,
    /// Byte offset of its first character.
    pub start: usize,
}

impl AsRef<str> for SubString {
    fn as_ref(&self) -> &str {
        self.s.as_str()
    }
}

/// Byte range `start..end` of `text` lies on character boundaries, in order.
pub open spec fn range_on_boundaries(text: Seq<char>, start: int, end: int) -> bool {
    start <= end && is_boundary(text, start) && is_boundary(text, end)
}

/// The characters of `text` in the byte range `start..end` (meaningful
/// under `range_on_boundaries`).
pub open spec fn text_in_range(text: Seq<char>, start: int, end: int) -> Seq<char> {
    text.subrange(char_pos_of_byte(text, start), char_pos_of_byte(text, end))
}

/// Under `range_on_boundaries`, the character positions are ordered.
proof fn lemma_range_positions(text: Seq<char>, start: int, end: int)
    requires
        range_on_boundaries(text, start, end),
    ensures
        0 <= char_pos_of_byte(text, start) <= char_pos_of_byte(text, end) <= text.len(),
{
    let a = char_pos_of_byte(text, start);
    let b = char_pos_of_byte(text, end);
    if a > b {
        lemma_byte_offset_mono(text, b, a);
    }
}

impl SubString {
    /// The part of `buffer` in the byte range `start..end`; refused with
    /// `NotInBuffer` unless both ends lie on character boundaries, in order.
    pub fn new(buffer: &str, start: usize, end: usize) -> (r: Result<SubString, EditError>)
        ensures
            r is Ok <==> range_on_boundaries(buffer@, start as int, end as int),
            r matches Ok(x) ==> x.start == start && x.s@ == text_in_range(
                buffer@,
                start as int,
                end as int,
            ),
            r matches Err(e) ==> e == EditError::NotInBuffer,
    {
        let n = str_byte_len(buffer);
        let v = chars_of(buffer);
        if start > end {
            return Err(EditError::NotInBuffer);
        }
        match (char_pos_for_byte(&v, start), char_pos_for_byte(&v, end)) {
            (Some(a), Some(b)) => {
                proof {
                    lemma_range_positions(v@, start as int, end as int);
                }
                let part = TextBuffer::chars_between(&v, a, b);
                Ok(SubString { s: string_of(&part), start })
            },
            _ => Err(EditError::NotInBuffer),
        }
    }

    /// A substring from its text and start offset.
    pub fn from_parts(s: String, start: usize) -> (r: SubString)
        ensures
            r.s == s,
            r.start == start,
    {
        SubString { s, start }
    }

    /// Byte offset just past the text.
    pub fn end(&self) -> (e: usize)
        requires
            self.start + byte_len(self.s@) <= usize::MAX,
        ensures
            e == self.start + byte_len(self.s@),
    {
        self.start + str_byte_len(self.s.as_str())
    }

    /// Whether either substring starts within the other, ends included.
    pub fn overlaps_with(&self, other: &SubString) -> (b: bool)
        requires
            self.start + byte_len(self.s@) <= usize::MAX,
            other.start + byte_len(other.s@) <= usize::MAX,
        ensures
            b == ((self.start <= other.start && other.start <= self.start + byte_len(self.s@)) || (
            other.start <= self.start && self.start <= other.start + byte_len(other.s@))),
    {
        let se = self.end();
        let oe = other.end();
        (self.start <= other.start && other.start <= se) || (other.start <= self.start
            && self.start <= oe)
    }
}

/// Whether two character vectors are equal.
pub fn same_chars_pub(a: &Vec<char>, b: &Vec<char>) -> (r: bool)
    ensures
        r == (a@ == b@),
{
    same_chars(a, b)
}

/// Whether two character vectors are equal.
fn same_chars(a: &Vec<char>, b: &Vec<char>) -> (r: bool)
    ensures
        r == (a@ == b@),
{
    if a.len() != b.len() {
        return false;
    }
    let mut i: usize = 0;
    while i < a.len()
        invariant
            a.len() == b.len(),
            i <= a.len(),
            forall|j: int| 0 <= j < i ==> a@[j] == b@[j],
        decreases a.len() - i,
    {
        if a[i] != b[i] {
            return false;
        }
        i = i + 1;
    }
    assert(a@ =~= b@);
    true
}

impl TextBuffer {
    /// Replace the expected word `sub_string` by `new_word` (with `\r\n`
    /// and `\r` turned into `\n`), leaving the cursor after it; an undo step
    /// of its own. Refused, changing nothing, when the word's byte range does
    /// not lie on character boundaries (`OutOfBounds`) or holds other text
    /// (`WordMismatch`). On success returns `new_word` at the same start.
    pub fn replace_word_under_cursor(&mut self, new_word: &str, sub_string: &SubString) -> (r:
        Result<SubString, EditError>)
        requires
            old(self).wf(),
            sub_string.start + byte_len(sub_string.s@) <= usize::MAX,
            old(self).len_bytes() + byte_len(new_word@) <= usize::MAX,
        ensures
            final(self).wf(),
            ({
                let start = sub_string.start as int;
                let end = start + byte_len(sub_string.s@);
                let t = old(self).text();
                if !range_on_boundaries(t, start, end) {
                    &&& r matches Err(EditError::OutOfBounds(m)) && m@ == out_of_bounds_message(
                        sub_string.s@,
                        start as nat,
                    )
                    &&& final(self).state() == old(self).state()
                    &&& final(self).history() == old(self).history()
                } else if text_in_range(t, start, end) != sub_string.s@ {
                    &&& r matches Err(EditError::WordMismatch(m)) && m@ == mismatch_message(
                        sub_string.s@,
                        start as nat,
                        text_in_range(t, start, end),
                    )
                    &&& final(self).state() == old(self).state()
                    &&& final(self).history() == old(self).history()
                } else {
                    let a = char_pos_of_byte(t, start);
                    let b = char_pos_of_byte(t, end);
                    &&& r matches Ok(x) && x.s@ == new_word@ && x.start == sub_string.start
                    &&& final(self).text() == splice(t, a, b, sanitize_newlines(new_word@))
                    &&& final(self).cursor() == a + sanitize_newlines(new_word@).len()
                    &&& final(self).anchor() == old(self).anchor()
                    &&& recorded(old(self).history(), final(self).history(), old(self).state(), false)
                }
            }),
    {
        let start = sub_string.start;
        let end = sub_string.end();
        match (char_pos_for_byte(&self.buf, start), char_pos_for_byte(&self.buf, end)) {
            (Some(a), Some(b)) => {
                proof {
                    lemma_range_positions(self.buf@, start as int, end as int);
                }
                let found = Self::chars_between(&self.buf, a, b);
                let expected = chars_of(sub_string.s.as_str());
                if same_chars(&found, &expected) {
                    self.push_snapshot(false);
                    proof {
                        self.lemma_wf_facts();
                        Self::lemma_delete_bytes(self.buf@, a as int, b as int);
                        lemma_splice_bytes(self.buf@, a as int, b as int, Seq::empty());
                    }
                    self.cursor = 0;
                    self.delete_chars(a, b);
                    self.cursor = a;
                    proof {
                        assert(splice(old(self).text(), a as int, b as int, Seq::empty()).take(a as int)
                            =~= old(self).text().take(a as int));
                    }
                    self.insert_str_no_snapshot(new_word);
                    proof {
                        let t = old(self).text();
                        let ins = sanitize_newlines(new_word@);
                        assert(splice(splice(t, a as int, b as int, Seq::empty()), a as int, a as int, ins)
                            =~= splice(t, a as int, b as int, ins));
                    }
                    Ok(SubString { s: new_word.to_owned(), start })
                } else {
                    Err(EditError::WordMismatch(mismatch_text(sub_string.s.as_str(), start, &found)))
                }
            },
            _ => Err(EditError::OutOfBounds(out_of_bounds_text(sub_string.s.as_str(), start))),
        }
    }
}

/// Position of cluster `k`, or the text's end when there is no such
/// cluster.
pub open spec fn cluster_pos(s: Seq<char>, g: Seq<int>, k: int) -> int {
    if 0 <= k < g.len() {
        g[k]
    } else {
        s.len() as int
    }
}

/// Whether a move aiming at column `tc` stops at cluster `k` of its row:
/// past the last cluster, at a cluster starting at or past the column, or
/// at the newline that ends the row.
pub open spec fn stops_at(s: Seq<char>, g: Seq<int>, tc: int, k: int) -> bool {
    k >= g.len() || pos_after(s, g, k as nat).1 >= tc || segment(s, g, k).contains('\n')
}

/// Scanning clusters from `i` (at the row and column reached there), a move
/// to row `tr` lands on a cluster of row `tr` (or the end), the first one
/// on that row at which it stops.
pub proof fn lemma_move_target_lands(s: Seq<char>, g: Seq<int>, tr: int, tc: int, i: int)
    requires
        0 <= i <= g.len(),
        pos_after(s, g, i as nat).0 <= tr <= pos_after(s, g, g.len()).0,
    ensures
        exists|k: int|
            i <= k <= g.len() && move_target(s, g, tr, tc, i, pos_after(s, g, i as nat).0, pos_after(s, g, i as nat).1)
                == cluster_pos(s, g, k) && #[trigger] pos_after(s, g, k as nat).0 == tr && stops_at(s, g, tc, k) && forall|
                j: int,
            |
                i <= j < k && #[trigger] pos_after(s, g, j as nat).0 == tr ==> !stops_at(s, g, tc, j),
    decreases g.len() - i,
{
    let row = pos_after(s, g, i as nat).0;
    let col = pos_after(s, g, i as nat).1;
    let t = move_target(s, g, tr, tc, i, row, col);
    if i == g.len() {
        assert(i <= i <= g.len() && t == cluster_pos(s, g, i) && pos_after(s, g, i as nat).0 == tr && stops_at(s, g, tc, i));
    } else {
        assert(pos_after(s, g, (i + 1) as nat) == if segment(s, g, i).contains('\n') {
            (row + 1, 0int)
        } else {
            (row, col + display_width(segment(s, g, i)))
        });
        if row == tr && col >= tc {
            assert(t == cluster_pos(s, g, i) && pos_after(s, g, i as nat).0 == tr && stops_at(s, g, tc, i));
        } else if segment(s, g, i).contains('\n') {
            if row == tr {
                assert(t == cluster_pos(s, g, i) && pos_after(s, g, i as nat).0 == tr && stops_at(s, g, tc, i));
            } else {
                lemma_move_target_lands(s, g, tr, tc, i + 1);
                let k = choose|k: int|
                    i + 1 <= k <= g.len() && move_target(
                        s,
                        g,
                        tr,
                        tc,
                        i + 1,
                        pos_after(s, g, (i + 1) as nat).0,
                        pos_after(s, g, (i + 1) as nat).1,
                    ) == cluster_pos(s, g, k) && #[trigger] pos_after(s, g, k as nat).0 == tr && stops_at(s, g, tc, k)
                        && forall|j: int|
                        i + 1 <= j < k && #[trigger] pos_after(s, g, j as nat).0 == tr ==> !stops_at(s, g, tc, j);
                assert(t == cluster_pos(s, g, k));
                assert forall|j: int| i <= j < k && #[trigger] pos_after(s, g, j as nat).0 == tr implies !stops_at(
                    s,
                    g,
                    tc,
                    j,
                ) by {
                    if j == i {
                    }
                }
            }
        } else {
            lemma_move_target_lands(s, g, tr, tc, i + 1);
            let k = choose|k: int|
                i + 1 <= k <= g.len() && move_target(
                    s,
                    g,
                    tr,
                    tc,
                    i + 1,
                    pos_after(s, g, (i + 1) as nat).0,
                    pos_after(s, g, (i + 1) as nat).1,
                ) == cluster_pos(s, g, k) && #[trigger] pos_after(s, g, k as nat).0 == tr && stops_at(s, g, tc, k)
                    && forall|j: int| i + 1 <= j < k && #[trigger] pos_after(s, g, j as nat).0 == tr ==> !stops_at(s, g, tc, j);
            assert(t == cluster_pos(s, g, k));
            assert forall|j: int| i <= j < k && #[trigger] pos_after(s, g, j as nat).0 == tr implies !stops_at(
                s,
                g,
                tc,
                j,
            ) by {
                if j == i {
                }
            }
        }
    }
}

/// A move to row `tr`, column `tc` of a text that has row `tr` lands on
/// that row: at the first cluster of the row that starts at or past column
/// `tc`, else at the newline that ends the row, else at the text's end. No
/// cluster of the row before the landing place qualifies.
pub proof fn law_goto_lands_on_row(s: Seq<char>, tr: int, tc: int)
    requires
        0 <= tr <= pos_after(s, grapheme_starts_spec(s), grapheme_starts_spec(s).len()).0,
    ensures
        ({
            let g = grapheme_starts_spec(s);
            exists|k: int|
                0 <= k <= g.len() && goto_target(s, tr, tc) == cluster_pos(s, g, k) && #[trigger] pos_after(
                    s,
                    g,
                    k as nat,
                ).0 == tr && stops_at(s, g, tc, k) && forall|j: int|
                    0 <= j < k && #[trigger] pos_after(s, g, j as nat).0 == tr ==> !stops_at(s, g, tc, j)
        }),
{
    lemma_move_target_lands(s, grapheme_starts_spec(s), tr, tc, 0);
}

} // verus!
