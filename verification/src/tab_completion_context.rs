//! What tab completion should complete: the command around the cursor, the
//! word under it, and the kinds of completion to try in order.

use crate::cursor_context::{completion_chars, completion_chars_exec};
use crate::text_buffer::{run_fwd, nonws_p, ws_p, range_on_boundaries, text_in_range, SubString};
use crate::unicode::{
    byte_len, byte_offset, byte_offset_of, char_pos_for_byte, char_pos_of_byte, chars_of,
    is_boundary, is_whitespace, is_whitespace_spec, str_byte_len, string_of,
};
use vstd::prelude::*;

verus! {

/// A kind of completion.
#[derive(Debug, Clone, PartialEq, Eq)]
pub enum CompType {
    /// No completion (displayed as "None").
    Nothing,
    /// Complete the command word under the cursor.
    FirstWord,
    /// Fuzzy-match commands when prefix matching finds nothing.
    FuzzyFirstWord,
    /// Ask the shell's programmable completion of `command_word`.
    CommandComp { command_word: String },
    /// Programmable completion of `command_word` with fuzzy matching.
    FuzzyCommandComp { command_word: String },
    /// Complete the variable name under the cursor.
    EnvVariable,
    /// Complete the `~user` under the cursor.
    TildeExpansion,
    /// Complete the host after `@`.
    HostnameExpansion,
    /// Expand the glob pattern under the cursor.
    GlobExpansion,
    /// Complete the file name under the cursor.
    FilenameExpansion,
    /// Fuzzy-match files when file name completion finds nothing.
    FuzzyFilenameExpansion,
}

/// The content of a `CompType`.
pub enum CompView {
    Nothing,
    FirstWord,
    FuzzyFirstWord,
    CommandComp(Seq<char>),
    FuzzyCommandComp(Seq<char>),
    EnvVariable,
    TildeExpansion,
    HostnameExpansion,
    GlobExpansion,
    FilenameExpansion,
    FuzzyFilenameExpansion,
}

impl View for CompType {
    type V = CompView;

    open spec fn view(&self) -> CompView {
        match self {
            CompType::Nothing => CompView::Nothing,
            CompType::FirstWord => CompView::FirstWord,
            CompType::FuzzyFirstWord => CompView::FuzzyFirstWord,
            CompType::CommandComp { command_word } => CompView::CommandComp(command_word@),
            CompType::FuzzyCommandComp { command_word } => CompView::FuzzyCommandComp(command_word@),
            CompType::EnvVariable => CompView::EnvVariable,
            CompType::TildeExpansion => CompView::TildeExpansion,
            CompType::HostnameExpansion => CompView::HostnameExpansion,
            CompType::GlobExpansion => CompView::GlobExpansion,
            CompType::FilenameExpansion => CompView::FilenameExpansion,
            CompType::FuzzyFilenameExpansion => CompView::FuzzyFilenameExpansion,
        }
    }
}

impl Default for CompType {
    fn default() -> (r: Self)
        ensures
            r == CompType::Nothing,
    {
        CompType::Nothing
    }
}

/// The next unescaped `ch` at or after `j`.
pub open spec fn has_unescaped(s: Seq<char>, j: int, ch: char) -> bool
    decreases s.len() - j,
{
    if j < 0 || j >= s.len() {
        false
    } else if s[j] == '\\' {
        if j + 1 < s.len() {
            has_unescaped(s, j + 2, ch)
        } else {
            false
        }
    } else if s[j] == ch {
        true
    } else {
        has_unescaped(s, j + 1, ch)
    }
}

/// An unescaped `,` comes before the next unescaped `}`, which exists.
pub open spec fn brace_list(s: Seq<char>, j: int) -> bool
    decreases s.len() - j,
{
    if j < 0 || j >= s.len() {
        false
    } else if s[j] == '\\' {
        if j + 1 < s.len() {
            brace_list(s, j + 2)
        } else {
            false
        }
    } else if s[j] == ',' {
        has_unescaped(s, j + 1, '}')
    } else if s[j] == '}' {
        false
    } else {
        brace_list(s, j + 1)
    }
}

/// From `i` on, `s` holds an unescaped `*` or `?`, a `[` with a later
/// `]`, or a `{` opening a comma-separated list.
pub open spec fn glob_from(s: Seq<char>, i: int) -> bool
    decreases s.len() - i,
{
    if i < 0 || i >= s.len() {
        false
    } else if s[i] == '\\' {
        if i + 1 < s.len() {
            glob_from(s, i + 2)
        } else {
            false
        }
    } else if s[i] == '*' || s[i] == '?' {
        true
    } else if s[i] == '[' && has_unescaped(s, i + 1, ']') {
        true
    } else if s[i] == '{' && brace_list(s, i + 1) {
        true
    } else {
        glob_from(s, i + 1)
    }
}

/// The number of backslashes directly before position `k`.
pub open spec fn backslashes_before(s: Seq<char>, k: int) -> nat
    decreases k,
{
    if 0 < k <= s.len() && s[k - 1] == '\\' {
        1 + backslashes_before(s, k - 1)
    } else {
        0
    }
}

/// The character at `k` is not escaped: an even number of backslashes
/// stands directly before it.
pub open spec fn unescaped_at(s: Seq<char>, k: int) -> bool {
    backslashes_before(s, k) % 2 == 0
}

/// Scanning from an unescaped position `i`, an unescaped `*` or `?` at
/// or after `i` makes the rest a glob pattern.
proof fn lemma_wildcard_glob_from(s: Seq<char>, i: int, k: int)
    requires
        0 <= i <= k < s.len(),
        unescaped_at(s, i),
        unescaped_at(s, k),
        s[k] == '*' || s[k] == '?',
    ensures
        glob_from(s, i),
    decreases k - i,
{
    if i < k {
        if s[i] == '\\' {
            if i + 1 == k {
                assert(backslashes_before(s, k) == 1 + backslashes_before(s, i));
                assert(false);
            }
            if s[i + 1] == '\\' {
                assert(backslashes_before(s, i + 1) == 1 + backslashes_before(s, i));
                assert(backslashes_before(s, i + 2) == 1 + backslashes_before(s, i + 1));
            } else {
                assert(backslashes_before(s, i + 2) == 0);
            }
            lemma_wildcard_glob_from(s, i + 2, k);
        } else if s[i] == '*' || s[i] == '?' {
        } else if s[i] == '[' && has_unescaped(s, i + 1, ']') {
        } else if s[i] == '{' && brace_list(s, i + 1) {
        } else {
            assert(backslashes_before(s, i + 1) == 0);
            lemma_wildcard_glob_from(s, i + 1, k);
        }
    }
}

/// A word holding an unescaped `*` or `?` is a glob pattern (what
/// `CompType::is_glob_pattern` answers).
pub proof fn law_unescaped_wildcard_is_glob(s: Seq<char>, k: int)
    requires
        0 <= k < s.len(),
        s[k] == '*' || s[k] == '?',
        unescaped_at(s, k),
    ensures
        glob_from(s, 0),
{
    lemma_wildcard_glob_from(s, 0, k);
}

/// `s` starts with `p`.
pub open spec fn starts_with(s: Seq<char>, p: Seq<char>) -> bool {
    p.len() <= s.len() && s.take(p.len() as int) == p
}

/// The first whitespace-separated word of `s`, or empty.
pub open spec fn first_word(s: Seq<char>) -> Seq<char> {
    let a = run_fwd(s, 0, ws_p());
    s.subrange(a, run_fwd(s, a, nonws_p()))
}

/// `s` is only whitespace.
pub open spec fn blank_text(s: Seq<char>) -> bool {
    forall|k: int| 0 <= k < s.len() ==> is_whitespace_spec(#[trigger] s[k])
}

/// The completions to try, in order, for the word `wuc` in the command
/// context `ctx` whose part before the cursor is `before`.
pub open spec fn comp_types_spec(ctx: Seq<char>, before: Seq<char>, wuc: Seq<char>) -> Seq<CompView> {
    let path = starts_with(wuc, seq!['~']) || wuc.contains('/');
    let env = (starts_with(wuc, seq!['$']) || starts_with(wuc, seq!['"', '$'])) && !path;
    let tilde = starts_with(wuc, seq!['~']) && !wuc.contains('/');
    let first_words = blank_text(ctx) || blank_free(before);
    let lead = if tilde {
        seq![CompView::TildeExpansion]
    } else {
        Seq::empty()
    };
    let cmd = if first_words {
        seq![CompView::FirstWord, CompView::FuzzyFirstWord]
    } else {
        seq![CompView::CommandComp(first_word(ctx))]
    };
    let tail = if env {
        seq![CompView::EnvVariable]
    } else if tilde {
        seq![CompView::TildeExpansion]
    } else if wuc.contains('@') && !wuc.contains('/') {
        seq![CompView::HostnameExpansion]
    } else if glob_from(wuc, 0) {
        seq![CompView::GlobExpansion]
    } else if !path && !first_words {
        seq![
            CompView::FilenameExpansion,
            CompView::FuzzyCommandComp(first_word(ctx)),
            CompView::FuzzyFilenameExpansion,
        ]
    } else {
        seq![CompView::FilenameExpansion, CompView::FuzzyFilenameExpansion]
    };
    lead + cmd + tail
}

/// `s` holds no whitespace.
pub open spec fn blank_free(s: Seq<char>) -> bool {
    forall|k: int| 0 <= k < s.len() ==> !is_whitespace_spec(#[trigger] s[k])
}

impl CompType {
    /// Whether `s` is a glob pattern: an unescaped `*` or `?`, a `[` with a
    /// later `]`, or a `{` list with a comma.
    pub fn is_glob_pattern(s: &str) -> (b: bool)
        ensures
            b == glob_from(s@, 0),
    {
        let v = chars_of(s);
        let mut i: usize = 0;
        while i < v.len()
            invariant
                i <= v.len() + 1,
                v@ == s@,
                glob_from(v@, i as int) == glob_from(v@, 0),
            decreases v.len() + 1 - i,
        {
            if v[i] == '\\' {
                if i + 1 < v.len() {
                    i = i + 2;
                } else {
                    return false;
                }
            } else if v[i] == '*' || v[i] == '?' {
                return true;
            } else if v[i] == '[' && has_unescaped_exec(&v, i + 1, ']') {
                return true;
            } else if v[i] == '{' && brace_list_exec(&v, i + 1) {
                return true;
            } else {
                i = i + 1;
            }
        }
        false
    }

    /// The kind's name.
    pub fn display_name(&self) -> (r: &'static str)
        ensures
            r@ == match self {
                CompType::Nothing => "None"@,
                CompType::FirstWord => "FirstWord"@,
                CompType::FuzzyFirstWord => "FuzzyFirstWord"@,
                CompType::CommandComp { .. } => "CommandComp"@,
                CompType::FuzzyCommandComp { .. } => "FuzzyCommandComp"@,
                CompType::EnvVariable => "EnvVariable"@,
                CompType::TildeExpansion => "TildeExpansion"@,
                CompType::HostnameExpansion => "HostnameExpansion"@,
                CompType::GlobExpansion => "GlobExpansion"@,
                CompType::FilenameExpansion => "FilenameExpansion"@,
                CompType::FuzzyFilenameExpansion => "FuzzyFilenameExpansion"@,
            },
    {
        match self {
            CompType::Nothing => "None",
            CompType::FirstWord => "FirstWord",
            CompType::FuzzyFirstWord => "FuzzyFirstWord",
            CompType::CommandComp { .. } => "CommandComp",
            CompType::FuzzyCommandComp { .. } => "FuzzyCommandComp",
            CompType::EnvVariable => "EnvVariable",
            CompType::TildeExpansion => "TildeExpansion",
            CompType::HostnameExpansion => "HostnameExpansion",
            CompType::GlobExpansion => "GlobExpansion",
            CompType::FilenameExpansion => "FilenameExpansion",
            CompType::FuzzyFilenameExpansion => "FuzzyFilenameExpansion",
        }
    }
}

fn has_unescaped_exec(v: &Vec<char>, j0: usize, ch: char) -> (b: bool)
    requires
        j0 <= v.len(),
    ensures
        b == has_unescaped(v@, j0 as int, ch),
{
    let mut j = j0;
    while j < v.len()
        invariant
            j <= v.len() + 1,
            has_unescaped(v@, j as int, ch) == has_unescaped(v@, j0 as int, ch),
        decreases v.len() + 1 - j,
    {
        if v[j] == '\\' {
            if j + 1 < v.len() {
                j = j + 2;
            } else {
                return false;
            }
        } else if v[j] == ch {
            return true;
        } else {
            j = j + 1;
        }
    }
    false
}

fn brace_list_exec(v: &Vec<char>, j0: usize) -> (b: bool)
    requires
        j0 <= v.len(),
    ensures
        b == brace_list(v@, j0 as int),
{
    let mut j = j0;
    while j < v.len()
        invariant
            j <= v.len() + 1,
            brace_list(v@, j as int) == brace_list(v@, j0 as int),
        decreases v.len() + 1 - j,
    {
        if v[j] == '\\' {
            if j + 1 < v.len() {
                j = j + 2;
            } else {
                return false;
            }
        } else if v[j] == ',' {
            return has_unescaped_exec(v, j + 1, '}');
        } else if v[j] == '}' {
            return false;
        } else {
            j = j + 1;
        }
    }
    false
}

/// Byte length of the part of a context starting at byte `start` that lies
/// before the cursor.
pub open spec fn until_end(ctx: Seq<char>, start: usize, cursor: usize) -> int {
    let d = if cursor >= start {
        cursor - start
    } else {
        0
    };
    if d < byte_len(ctx) {
        d
    } else {
        byte_len(ctx) as int
    }
}

/// The part of a context starting at byte `start` that lies before the cursor.
pub open spec fn until_text(ctx: Seq<char>, start: usize, cursor: usize) -> Seq<char> {
    ctx.take(char_pos_of_byte(ctx, until_end(ctx, start, cursor)))
}

fn starts_with_char(v: &Vec<char>, c: char) -> (b: bool)
    ensures
        b == starts_with(v@, seq![c]),
{
    if v.len() >= 1 {
        assert(v@.take(1) =~= seq![v@[0]]);
        assert(seq![v@[0]][0] == v@[0] && seq![c][0] == c);
        v[0] == c
    } else {
        false
    }
}

fn starts_with_quote_dollar(v: &Vec<char>) -> (b: bool)
    ensures
        b == starts_with(v@, seq!['"', '$']),
{
    if v.len() >= 2 {
        assert(v@.take(2) =~= seq![v@[0], v@[1]]);
        v[0] == '"' && v[1] == '$'
    } else {
        false
    }
}

fn contains_char(v: &Vec<char>, c: char) -> (b: bool)
    ensures
        b == v@.contains(c),
{
    let mut i: usize = 0;
    while i < v.len()
        invariant
            i <= v.len(),
            forall|j: int| 0 <= j < i ==> v@[j] != c,
        decreases v.len() - i,
    {
        if v[i] == c {
            assert(v@[i as int] == c);
            return true;
        }
        i = i + 1;
    }
    false
}

fn all_blank(v: &Vec<char>) -> (b: bool)
    ensures
        b == blank_text(v@),
{
    let mut i: usize = 0;
    while i < v.len()
        invariant
            i <= v.len(),
            forall|j: int| 0 <= j < i ==> is_whitespace_spec(#[trigger] v@[j]),
        decreases v.len() - i,
    {
        if !is_whitespace(v[i]) {
            return false;
        }
        i = i + 1;
    }
    true
}

fn no_blank(v: &Vec<char>) -> (b: bool)
    ensures
        b == blank_free(v@),
{
    let mut i: usize = 0;
    while i < v.len()
        invariant
            i <= v.len(),
            forall|j: int| 0 <= j < i ==> !is_whitespace_spec(#[trigger] v@[j]),
        decreases v.len() - i,
    {
        if is_whitespace(v[i]) {
            assert(is_whitespace_spec(v@[i as int]));
            return false;
        }
        i = i + 1;
    }
    true
}

fn first_word_exec(v: &Vec<char>) -> (w: String)
    ensures
        w@ == first_word(v@),
{
    let a = crate::text_buffer::fwd_over_ws(v, 0);
    let b = crate::text_buffer::fwd_over_nonws(v, a);
    let part = crate::text_buffer::TextBuffer::chars_between_pub(v, a, b);
    string_of(&part)
}

/// The characters of `s` before byte `end`, which must start a character.
fn prefix_chars(s: &str, end: usize) -> (r: Vec<char>)
    requires
        is_boundary(s@, end as int),
    ensures
        r@ == s@.take(char_pos_of_byte(s@, end as int)),
{
    let n = str_byte_len(s);
    let v = chars_of(s);
    match char_pos_for_byte(&v, end) {
        Some(k) => {
            let r = crate::text_buffer::TextBuffer::chars_between_pub(&v, 0, k);
            assert(v@.subrange(0, k as int) =~= v@.take(k as int));
            r
        },
        None => {
            assert(false);
            Vec::new()
        },
    }
}

/// A tab-completion request: the buffer, the command around the cursor
/// (the context), the cursor and the word under it.
#[derive(Debug, Clone, PartialEq, Eq)]
pub struct CompletionContext {
    pub buffer: String,
    pub context: SubString,
    pub cursor_byte_pos: usize,
    pub word_under_cursor: SubString,
}

/// Alias expansion moves a position by the difference in length between
/// the alias definition and the command word, saturating at the `usize`
/// bounds.
pub open spec fn adjust_spec(pos: usize, command_word_len: usize, alias_len: usize) -> usize {
    if alias_len >= command_word_len {
        let p = pos + (alias_len - command_word_len);
        if p > usize::MAX {
            usize::MAX
        } else {
            p as usize
        }
    } else {
        let d = command_word_len - alias_len;
        if pos >= d {
            (pos - d) as usize
        } else {
            0
        }
    }
}

impl CompletionContext {
    /// A completion request from its parts.
    pub fn new(buffer: &str, cursor_byte_pos: usize, context: SubString, word_under_cursor: SubString) -> (r: Self)
        ensures
            r.buffer@ == buffer@,
            r.cursor_byte_pos == cursor_byte_pos,
            r.context == context,
            r.word_under_cursor == word_under_cursor,
    {
        CompletionContext { buffer: buffer.to_owned(), context, cursor_byte_pos, word_under_cursor }
    }

    /// The request with an empty context and word, cursor at 0.
    pub fn dummy(buffer: &str) -> (r: Self)
        ensures
            r.buffer@ == buffer@,
            r.context.s@ == Seq::<char>::empty(),
            r.context.start == 0,
            r.cursor_byte_pos == 0,
            r.word_under_cursor.s@ == Seq::<char>::empty(),
            r.word_under_cursor.start == 0,
    {
        CompletionContext {
            buffer: buffer.to_owned(),
            context: SubString { s: String::new(), start: 0 },
            cursor_byte_pos: 0,
            word_under_cursor: SubString { s: String::new(), start: 0 },
        }
    }

    /// The same request, owning its buffer.
    pub fn into_owned(self) -> (r: Self)
        ensures
            r == self,
    {
        self
    }

    /// The completions to try, in order (see `comp_types_spec`).
    fn comp_types_for(context: &SubString, cursor_byte_pos: usize, word_under_cursor: &SubString) -> (r: Vec<CompType>)
        requires
            is_boundary(context.s@, until_end(context.s@, context.start, cursor_byte_pos)),
        ensures
            r@.map_values(|c: CompType| c@) == comp_types_spec(
                context.s@,
                until_text(context.s@, context.start, cursor_byte_pos),
                word_under_cursor.s@,
            ),
    {
        let wuc = chars_of(word_under_cursor.s.as_str());
        let ctx = chars_of(context.s.as_str());
        let before = Self::context_until_cursor_for(context, cursor_byte_pos);
        let has_slash = contains_char(&wuc, '/');
        let tilde_start = starts_with_char(&wuc, '~');
        let path = tilde_start || has_slash;
        let env = (starts_with_char(&wuc, '$') || starts_with_quote_dollar(&wuc)) && !path;
        let tilde = tilde_start && !has_slash;
        let first_words = all_blank(&ctx) || no_blank(&before);
        let ghost expected = comp_types_spec(context.s@, before@, wuc@);
        let mut r: Vec<CompType> = Vec::new();
        let ghost lead: Seq<CompView> = if tilde {
            seq![CompView::TildeExpansion]
        } else {
            Seq::empty()
        };
        if tilde {
            r.push(CompType::TildeExpansion);
        }
        assert(r@.map_values(|c: CompType| c@) =~= lead);
        let cw = first_word_exec(&ctx);
        let ghost cmd: Seq<CompView> = if first_words {
            seq![CompView::FirstWord, CompView::FuzzyFirstWord]
        } else {
            seq![CompView::CommandComp(first_word(ctx@))]
        };
        if first_words {
            r.push(CompType::FirstWord);
            r.push(CompType::FuzzyFirstWord);
        } else {
            r.push(CompType::CommandComp { command_word: cw.clone() });
        }
        assert(r@.map_values(|c: CompType| c@) =~= lead + cmd);
        let ghost r1 = r@;
        if env {
            r.push(CompType::EnvVariable);
        } else if tilde {
            r.push(CompType::TildeExpansion);
        } else if contains_char(&wuc, '@') && !has_slash {
            r.push(CompType::HostnameExpansion);
        } else if CompType::is_glob_pattern(word_under_cursor.s.as_str()) {
            r.push(CompType::GlobExpansion);
        } else if !path && !first_words {
            r.push(CompType::FilenameExpansion);
            r.push(CompType::FuzzyCommandComp { command_word: cw });
            r.push(CompType::FuzzyFilenameExpansion);
        } else {
            r.push(CompType::FilenameExpansion);
            r.push(CompType::FuzzyFilenameExpansion);
        }
        assert(r@.map_values(|c: CompType| c@) =~= expected);
        r
    }

    fn context_until_cursor_for(context: &SubString, cursor_byte_pos: usize) -> (r: Vec<char>)
        requires
            is_boundary(context.s@, until_end(context.s@, context.start, cursor_byte_pos)),
        ensures
            r@ == until_text(context.s@, context.start, cursor_byte_pos),
    {
        let d = cursor_byte_pos.saturating_sub(context.start);
        let n = str_byte_len(context.s.as_str());
        let end = if d < n {
            d
        } else {
            n
        };
        prefix_chars(context.s.as_str(), end)
    }

    /// The part of the context before the cursor.
    pub fn context_until_cursor(&self) -> (r: String)
        requires
            is_boundary(self.context.s@, until_end(self.context.s@, self.context.start, self.cursor_byte_pos)),
        ensures
            r@ == until_text(self.context.s@, self.context.start, self.cursor_byte_pos),
    {
        let v = Self::context_until_cursor_for(&self.context, self.cursor_byte_pos);
        string_of(&v)
    }

    /// The completions to try for this request, in order.
    pub fn comp_types(&self) -> (r: Vec<CompType>)
        requires
            is_boundary(self.context.s@, until_end(self.context.s@, self.context.start, self.cursor_byte_pos)),
        ensures
            r@.map_values(|c: CompType| c@) == comp_types_spec(
                self.context.s@,
                until_text(self.context.s@, self.context.start, self.cursor_byte_pos),
                self.word_under_cursor.s@,
            ),
    {
        Self::comp_types_for(&self.context, self.cursor_byte_pos, &self.word_under_cursor)
    }

    /// The cursor as a byte offset into the context (0 before it).
    pub fn cursor_byte_pos_context_relative(&self) -> (r: usize)
        ensures
            r == if self.cursor_byte_pos >= self.context.start {
                self.cursor_byte_pos - self.context.start
            } else {
                0
            },
    {
        self.cursor_byte_pos.saturating_sub(self.context.start)
    }

    /// The end of the word under the cursor as a byte offset into the
    /// context (0 before it).
    pub fn word_under_cursor_end_context_relative(&self) -> (r: usize)
        requires
            self.word_under_cursor.start + byte_len(self.word_under_cursor.s@) <= usize::MAX,
        ensures
            r == if self.word_under_cursor.start + byte_len(self.word_under_cursor.s@) >= self.context.start {
                self.word_under_cursor.start + byte_len(self.word_under_cursor.s@) - self.context.start
            } else {
                0
            },
    {
        self.word_under_cursor.end().saturating_sub(self.context.start)
    }

    /// The buffer text from the start of the word under the cursor to the
    /// cursor; empty unless that range lies on character boundaries.
    pub fn word_left_of_cursor(&self) -> (r: String)
        ensures
            r@ == if range_on_boundaries(self.buffer@, self.word_under_cursor.start as int, self.cursor_byte_pos as int) {
                text_in_range(self.buffer@, self.word_under_cursor.start as int, self.cursor_byte_pos as int)
            } else {
                Seq::empty()
            },
    {
        match SubString::new(self.buffer.as_str(), self.word_under_cursor.start, self.cursor_byte_pos) {
            Ok(x) => x.s,
            Err(_) => String::new(),
        }
    }

    /// The buffer text from the cursor to the end of the word under it;
    /// empty unless that range lies on character boundaries.
    pub fn word_right_of_cursor(&self) -> (r: String)
        requires
            self.word_under_cursor.start + byte_len(self.word_under_cursor.s@) <= usize::MAX,
        ensures
            ({
                let e = self.word_under_cursor.start + byte_len(self.word_under_cursor.s@);
                r@ == if range_on_boundaries(self.buffer@, self.cursor_byte_pos as int, e) {
                    text_in_range(self.buffer@, self.cursor_byte_pos as int, e)
                } else {
                    Seq::empty()
                }
            }),
    {
        let e = self.word_under_cursor.end();
        match SubString::new(self.buffer.as_str(), self.cursor_byte_pos, e) {
            Ok(x) => x.s,
            Err(_) => String::new(),
        }
    }

    fn copy_sub(x: &SubString) -> (r: SubString)
        ensures
            r.s@ == x.s@,
            r.start == x.start,
    {
        SubString { s: x.s.clone(), start: x.start }
    }

    /// The same request with the cursor at the end of the word under it.
    pub fn with_cursor_at_end_of_wuc(&self) -> (r: CompletionContext)
        requires
            self.word_under_cursor.start + byte_len(self.word_under_cursor.s@) <= usize::MAX,
        ensures
            r.buffer@ == self.buffer@,
            r.context.s@ == self.context.s@,
            r.context.start == self.context.start,
            r.word_under_cursor.s@ == self.word_under_cursor.s@,
            r.word_under_cursor.start == self.word_under_cursor.start,
            r.cursor_byte_pos == self.word_under_cursor.start + byte_len(self.word_under_cursor.s@),
    {
        let cursor_byte_pos = self.word_under_cursor.end();
        CompletionContext {
            buffer: self.buffer.clone(),
            context: Self::copy_sub(&self.context),
            cursor_byte_pos,
            word_under_cursor: Self::copy_sub(&self.word_under_cursor),
        }
    }

    fn adjust_after_alias_expansion(pos: usize, command_word_len: usize, alias_def: &str) -> (r: usize)
        ensures
            r == adjust_spec(pos, command_word_len, byte_len(alias_def@) as usize),
    {
        let n = str_byte_len(alias_def);
        if n >= command_word_len {
            pos.saturating_add(n - command_word_len)
        } else {
            pos.saturating_sub(command_word_len - n)
        }
    }

    /// The request with the command word of the context replaced by the
    /// alias definition `alias_def`: the context becomes `alias_def`
    /// followed by the context from the byte offset of the command word's
    /// length on, and the cursor and the word's start move by the change in
    /// length.
    pub fn with_expanded_alias(&self, alias_def: &str) -> (r: CompletionContext)
        requires
            is_boundary(self.context.s@, byte_len(first_word(self.context.s@)) as int),
        ensures
            ({
                let cwl = byte_len(first_word(self.context.s@));
                let alen = byte_len(alias_def@) as usize;
                &&& r.buffer@ == self.buffer@
                &&& r.context.s@ == alias_def@ + self.context.s@.skip(char_pos_of_byte(self.context.s@, cwl as int))
                &&& r.context.start == self.context.start
                &&& r.cursor_byte_pos == adjust_spec(self.cursor_byte_pos, cwl as usize, alen)
                &&& r.word_under_cursor.s@ == self.word_under_cursor.s@
                &&& r.word_under_cursor.start == adjust_spec(self.word_under_cursor.start, cwl as usize, alen)
            }),
    {
        let ctx = chars_of(self.context.s.as_str());
        let n = str_byte_len(self.context.s.as_str());
        let cw = first_word_exec(&ctx);
        let cwl = str_byte_len(cw.as_str());
        let k = match char_pos_for_byte(&ctx, cwl) {
            Some(k) => k,
            None => {
                assert(false);
                0
            },
        };
        let rest = crate::text_buffer::TextBuffer::chars_between_pub(&ctx, k, ctx.len());
        let mut e = chars_of(alias_def);
        crate::unicode::append_chars(&mut e, &rest);
        assert(ctx@.subrange(k as int, ctx@.len() as int) =~= ctx@.skip(k as int));
        let expanded = string_of(&e);
        let cursor_byte_pos = Self::adjust_after_alias_expansion(self.cursor_byte_pos, cwl, alias_def);
        let wstart = Self::adjust_after_alias_expansion(self.word_under_cursor.start, cwl, alias_def);
        CompletionContext {
            buffer: self.buffer.clone(),
            context: SubString { s: expanded, start: self.context.start },
            cursor_byte_pos,
            word_under_cursor: SubString { s: self.word_under_cursor.s.clone(), start: wstart },
        }
    }

    /// The request with the word under the cursor replaced by `new_wuc`
    /// inside the context; the word keeps its start. A cursor at or after
    /// the old word's end keeps its distance to the word's end; any other
    /// cursor goes to the new word's end.
    pub fn with_wuc_replaced(&self, new_wuc: &str) -> (r: CompletionContext)
        requires
            ({
                let ws = if self.word_under_cursor.start >= self.context.start {
                    self.word_under_cursor.start - self.context.start
                } else {
                    0
                };
                let we = ws + byte_len(self.word_under_cursor.s@);
                &&& we <= byte_len(self.context.s@)
                &&& is_boundary(self.context.s@, ws)
                &&& is_boundary(self.context.s@, we)
                &&& self.word_under_cursor.start + byte_len(self.word_under_cursor.s@) <= usize::MAX
                &&& self.word_under_cursor.start + byte_len(new_wuc@) + (if self.cursor_byte_pos
                    >= self.word_under_cursor.start + byte_len(self.word_under_cursor.s@) {
                    self.cursor_byte_pos - (self.word_under_cursor.start + byte_len(
                        self.word_under_cursor.s@,
                    ))
                } else {
                    0
                }) <= usize::MAX
                &&& byte_len(self.context.s@) + byte_len(new_wuc@) <= usize::MAX
            }),
        ensures
            ({
                let c = self.context.s@;
                let ws = if self.word_under_cursor.start >= self.context.start {
                    self.word_under_cursor.start - self.context.start
                } else {
                    0
                };
                let we = ws + byte_len(self.word_under_cursor.s@);
                let old_end = self.word_under_cursor.start + byte_len(self.word_under_cursor.s@);
                let new_end = self.word_under_cursor.start + byte_len(new_wuc@);
                &&& r.buffer@ == self.buffer@
                &&& r.context.s@ == c.take(char_pos_of_byte(c, ws)) + new_wuc@ + c.skip(char_pos_of_byte(c, we))
                &&& r.context.start == self.context.start
                &&& r.word_under_cursor.s@ == new_wuc@
                &&& r.word_under_cursor.start == self.word_under_cursor.start
                &&& r.cursor_byte_pos == if self.cursor_byte_pos >= old_end {
                    new_end + (self.cursor_byte_pos - old_end)
                } else {
                    new_end
                }
            }),
    {
        let ctx = chars_of(self.context.s.as_str());
        let n = str_byte_len(self.context.s.as_str());
        let ws = self.word_under_cursor.start.saturating_sub(self.context.start);
        let wl = str_byte_len(self.word_under_cursor.s.as_str());
        let we = ws + wl;
        let a = match char_pos_for_byte(&ctx, ws) {
            Some(k) => k,
            None => {
                assert(false);
                0
            },
        };
        let b = match char_pos_for_byte(&ctx, we) {
            Some(k) => k,
            None => {
                assert(false);
                0
            },
        };
        let mut out = crate::text_buffer::TextBuffer::chars_between_pub(&ctx, 0, a);
        crate::unicode::append_chars(&mut out, &chars_of(new_wuc));
        let tail = crate::text_buffer::TextBuffer::chars_between_pub(&ctx, b, ctx.len());
        crate::unicode::append_chars(&mut out, &tail);
        assert(ctx@.subrange(0, a as int) =~= ctx@.take(a as int));
        assert(ctx@.subrange(b as int, ctx@.len() as int) =~= ctx@.skip(b as int));
        let new_word = SubString { s: new_wuc.to_owned(), start: self.word_under_cursor.start };
        let old_end = self.word_under_cursor.end();
        let new_end = new_word.end();
        let cursor_byte_pos = if self.cursor_byte_pos >= old_end {
            new_end + (self.cursor_byte_pos - old_end)
        } else {
            new_end
        };
        CompletionContext {
            buffer: self.buffer.clone(),
            context: SubString { s: string_of(&out), start: self.context.start },
            cursor_byte_pos,
            word_under_cursor: new_word,
        }
    }
}

/// Character position of a cursor at byte `b`; past the end it is one
/// past the last character.
pub open spec fn cursor_char(s: Seq<char>, b: int) -> int {
    if b > byte_len(s) {
        s.len() + 1int
    } else {
        char_pos_of_byte(s, b)
    }
}

/// What `get_completion_context` returns, as character positions found by
/// `completion_chars` turned into byte offsets and texts.
pub open spec fn completion_matches(r: CompletionContext, s: Seq<char>, p: (int, int, int, int, int)) -> bool {
    &&& r.buffer@ == s
    &&& r.context.s@ == s.subrange(p.0, p.1)
    &&& r.context.start == byte_offset(s, p.0)
    &&& r.cursor_byte_pos == byte_offset(s, p.2)
    &&& r.word_under_cursor.s@ == s.subrange(p.3, p.4)
    &&& r.word_under_cursor.start == byte_offset(s, p.3)
}

/// The completion request for `buffer` with the cursor at byte
/// `cursor_byte_pos`, or `None` where the word found at the cursor does
/// not contain it.
pub fn try_completion_context(buffer: &str, cursor_byte_pos: usize) -> (r: Option<CompletionContext>)
    requires
        is_boundary(buffer@, cursor_byte_pos as int) || cursor_byte_pos > byte_len(buffer@),
    ensures
        match completion_chars(buffer@, cursor_char(buffer@, cursor_byte_pos as int)) {
            None => r is None,
            Some(p) => r matches Some(x) && completion_matches(x, buffer@, p),
        },
{
    let n = str_byte_len(buffer);
    let v = chars_of(buffer);
    let c = if cursor_byte_pos > n {
        proof {
            crate::unicode::lemma_byte_len_ge_len(v@);
        }
        v.len() + 1
    } else {
        match char_pos_for_byte(&v, cursor_byte_pos) {
            Some(k) => k,
            None => {
                assert(false);
                0
            },
        }
    };
    match completion_chars_exec(&v, c) {
        None => None,
        Some((cs, ce, cur, ws, we)) => {
            let ctx_start = byte_offset_of(&v, cs);
            let ctx = crate::text_buffer::TextBuffer::chars_between_pub(&v, cs, ce);
            let cursor = byte_offset_of(&v, cur);
            let w_start = byte_offset_of(&v, ws);
            let w = crate::text_buffer::TextBuffer::chars_between_pub(&v, ws, we);
            Some(CompletionContext {
                buffer: buffer.to_owned(),
                context: SubString { s: string_of(&ctx), start: ctx_start },
                cursor_byte_pos: cursor,
                word_under_cursor: SubString { s: string_of(&w), start: w_start },
            })
        },
    }
}

/// The completion request for `buffer` with the cursor at byte
/// `cursor_byte_pos`: the command around the cursor (see
/// `completion_chars`), the cursor, and the word under it.
pub fn get_completion_context(buffer: &str, cursor_byte_pos: usize) -> (r: CompletionContext)
    requires
        is_boundary(buffer@, cursor_byte_pos as int) || cursor_byte_pos > byte_len(buffer@),
        completion_chars(buffer@, cursor_char(buffer@, cursor_byte_pos as int)) is Some,
    ensures
        completion_matches(
            r,
            buffer@,
            completion_chars(buffer@, cursor_char(buffer@, cursor_byte_pos as int)).unwrap(),
        ),
{
    match try_completion_context(buffer, cursor_byte_pos) {
        Some(x) => x,
        None => {
            assert(false);
            CompletionContext::dummy(buffer)
        },
    }
}

} // verus!
