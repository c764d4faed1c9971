//! Tokens of a shell command line. The lexer tracks the nesting of quotes
//! and of the constructs that open a new command context: command and
//! process substitution, subshells, backticks, arithmetic expansion,
//! parameter expansion, `[[ ... ]]` tests and `if`/loop compounds.

use crate::text_buffer::{lemma_run_fwd_ge, run_fwd};
use crate::unicode::{is_whitespace, is_whitespace_spec};
use vstd::prelude::*;

verus! {

/// Kind of a token.
#[derive(Debug, Clone, Copy, PartialEq, Eq, Structural)]
pub enum TokKind {
    /// Word text (escapes included).
    Word,
    /// Blanks between words.
    Space,
    /// A newline inside double quotes.
    Newline,
    /// A command separator: `;`, `|`, `||`, `&`, `&&`, a newline, or a
    /// `then`/`else`/`elif`/`do` keyword.
    Sep,
    /// A redirection operator made of `<` and `>`.
    Redirect,
    /// A double quote.
    Quote,
    /// A single quote.
    SingleQuote,
    /// A `$` that does not open an expansion.
    Dollar,
    /// A `{` at the start of a word.
    LBrace,
    /// A `}` closing an `LBrace`.
    RBrace,
    /// Opens a nested command context.
    Open,
    /// Closes the innermost nested command context.
    Close,
}

/// What a lexer frame stands for.
#[derive(Debug, Clone, Copy, PartialEq, Eq, Structural)]
pub enum FrameKind {
    /// `$(`, `<(`, `>(` or `(`.
    Paren,
    /// A backtick substitution.
    Backtick,
    /// `$((`.
    Arith,
    /// `${`.
    Param,
    /// `[[`.
    DBracket,
    /// `if`, `while`, `until` or `for`.
    Compound,
    /// Inside double quotes.
    DQuote,
    /// Inside single quotes.
    SQuote,
}

/// An open construct: its kind, the index of the token that opened it and,
/// for arithmetic, the number of unclosed inner parentheses.
#[derive(Debug, Clone, Copy, PartialEq, Eq, Structural)]
pub struct Frame {
    pub kind: FrameKind,
    pub open: usize,
    pub parens: usize,
}

/// A token: its kind, its character range `start..end`, whether it is the
/// name of a variable after `$`, the index of the token it closes (for
/// `Close` and `RBrace`), and the index of the `Open` token of the
/// innermost context around it.
#[derive(Debug, Clone, Copy)]
pub struct Token {
    pub kind: TokKind,
    pub start: usize,
    pub end: usize,
    pub env: bool,
    pub mate: Option<usize>,
    pub region: Option<usize>,
}

/// Lexer state: open frames, indices of unclosed `{` tokens, whether the
/// next word starts a command, whether the previous token was a `$` before
/// a name.
pub type LexSt = (Seq<Frame>, Seq<usize>, bool, bool);

/// Blank: whitespace other than a newline.
pub open spec fn is_blank(c: char) -> bool {
    is_whitespace_spec(c) && c != '\n'
}

/// ASCII letter, digit or underscore.
pub open spec fn is_name_char(c: char) -> bool {
    let u = c as u32;
    (0x30 <= u <= 0x39) || (0x41 <= u <= 0x5A) || (0x61 <= u <= 0x7A) || u == 0x5F
}

/// Where a word of the given mode stops (escaped characters never stop it).
#[derive(Debug, Clone, Copy, PartialEq, Eq, Structural)]
pub enum RunMode {
    /// Command words; `}` stops them while a `{` is open.
    Cmd(bool),
    /// Text inside double quotes.
    DQ,
    /// Words inside `$(( ))`.
    Arith,
    /// Words inside `${ }`.
    Param,
}

pub open spec fn stops(m: RunMode, c: char) -> bool {
    match m {
        RunMode::Cmd(braces) => is_blank(c) || c == '\n' || c == '"' || c == '\'' || c == '`' || c
            == '$' || c == '(' || c == ')' || c == ';' || c == '|' || c == '&' || c == '<' || c
            == '>' || (braces && c == '}'),
        RunMode::DQ => c == '"' || c == '\n' || c == '$' || c == '`',
        RunMode::Arith => is_blank(c) || c == '\n' || c == '(' || c == ')' || c == '$' || c == '"'
            || c == '\'' || c == '`',
        RunMode::Param => is_blank(c) || c == '\n' || c == '}' || c == '$' || c == '"' || c
            == '\'' || c == '`',
    }
}

/// End of the word starting at `i`: a backslash takes the next character
/// with it; otherwise the word stops at the first stop character.
pub open spec fn word_end(s: Seq<char>, i: int, m: RunMode) -> int
    decreases s.len() - i,
{
    if i < 0 || i >= s.len() {
        s.len() as int
    } else if s[i] == '\\' {
        if i + 1 < s.len() {
            word_end(s, i + 2, m)
        } else {
            s.len() as int
        }
    } else if stops(m, s[i]) {
        i
    } else {
        word_end(s, i + 1, m)
    }
}

pub open spec fn blank_p() -> spec_fn(char) -> bool {
    |c: char| is_blank(c)
}

pub open spec fn space_p() -> spec_fn(char) -> bool {
    |c: char| is_blank(c) || c == '\n'
}

pub open spec fn name_p() -> spec_fn(char) -> bool {
    |c: char| is_name_char(c)
}

pub open spec fn redir_p() -> spec_fn(char) -> bool {
    |c: char| c == '<' || c == '>'
}

pub open spec fn squoted_p() -> spec_fn(char) -> bool {
    |c: char| c != '\''
}

/// The innermost open command context.
pub open spec fn region_of(f: Seq<Frame>) -> Option<usize>
    decreases f.len(),
{
    if f.len() == 0 {
        None
    } else if f.last().kind != FrameKind::DQuote && f.last().kind != FrameKind::SQuote {
        Some(f.last().open)
    } else {
        region_of(f.drop_last())
    }
}

pub open spec fn mk(
    kind: TokKind,
    start: int,
    end: int,
    env: bool,
    mate: Option<usize>,
    region: Option<usize>,
) -> Token {
    Token { kind, start: start as usize, end: end as usize, env, mate, region }
}

pub open spec fn next_is(s: Seq<char>, i: int, ch: char) -> bool {
    0 <= i < s.len() && s[i] == ch
}

pub open spec fn frame(kind: FrameKind, n: nat) -> Frame {
    Frame { kind, open: n as usize, parens: 0 }
}

/// The characters `s[i..j]` are `a b`.
pub open spec fn text2(s: Seq<char>, i: int, j: int, a: char, b: char) -> bool {
    j == i + 2 && s[i] == a && s[i + 1] == b
}

pub open spec fn text3(s: Seq<char>, i: int, j: int, a: char, b: char, c: char) -> bool {
    j == i + 3 && s[i] == a && s[i + 1] == b && s[i + 2] == c
}

pub open spec fn text4(s: Seq<char>, i: int, j: int, a: char, b: char, c: char, d: char) -> bool {
    j == i + 4 && s[i] == a && s[i + 1] == b && s[i + 2] == c && s[i + 3] == d
}

pub open spec fn text5(s: Seq<char>, i: int, j: int, a: char, b: char, c: char, d: char, e: char) -> bool {
    j == i + 5 && s[i] == a && s[i + 1] == b && s[i + 2] == c && s[i + 3] == d && s[i + 4] == e
}

/// A keyword that opens a compound command.
pub open spec fn opens_compound(s: Seq<char>, i: int, j: int) -> bool {
    text2(s, i, j, 'i', 'f') || text3(s, i, j, 'f', 'o', 'r') || text5(s, i, j, 'w', 'h', 'i', 'l', 'e')
        || text5(s, i, j, 'u', 'n', 't', 'i', 'l')
}

/// A keyword that closes a compound command.
pub open spec fn closes_compound(s: Seq<char>, i: int, j: int) -> bool {
    text2(s, i, j, 'f', 'i') || text4(s, i, j, 'd', 'o', 'n', 'e')
}

/// A keyword that separates the parts of a compound command.
pub open spec fn splits_compound(s: Seq<char>, i: int, j: int) -> bool {
    text4(s, i, j, 't', 'h', 'e', 'n') || text4(s, i, j, 'e', 'l', 's', 'e') || text4(
        s,
        i,
        j,
        'e',
        'l',
        'i',
        'f',
    ) || text2(s, i, j, 'd', 'o')
}

pub open spec fn top_is(f: Seq<Frame>, k: FrameKind) -> bool {
    f.len() > 0 && f.last().kind == k
}

/// Token for a `$` at `i` (outside single quotes).
pub open spec fn dollar_step(s: Seq<char>, i: int, n: nat, st: LexSt) -> (Token, LexSt) {
    let (f, br, cs, ad) = st;
    let reg = region_of(f);
    if next_is(s, i + 1, '(') && next_is(s, i + 2, '(') {
        (mk(TokKind::Open, i, i + 3, false, None, reg), (f.push(frame(FrameKind::Arith, n)), br, true, false))
    } else if next_is(s, i + 1, '(') {
        (mk(TokKind::Open, i, i + 2, false, None, reg), (f.push(frame(FrameKind::Paren, n)), br, true, false))
    } else if next_is(s, i + 1, '{') {
        (mk(TokKind::Open, i, i + 2, false, None, reg), (f.push(frame(FrameKind::Param, n)), br, true, false))
    } else if i + 1 < s.len() && is_name_char(s[i + 1]) {
        (mk(TokKind::Dollar, i, i + 1, false, None, reg), (f, br, false, true))
    } else {
        (mk(TokKind::Dollar, i, i + 1, false, None, reg), (f, br, false, false))
    }
}

/// Token for a quote or backtick at `i`.
pub open spec fn quote_step(s: Seq<char>, i: int, n: nat, st: LexSt) -> (Token, LexSt) {
    let (f, br, cs, ad) = st;
    let reg = region_of(f);
    if s[i] == '"' {
        (mk(TokKind::Quote, i, i + 1, false, None, reg), (f.push(frame(FrameKind::DQuote, n)), br, false, false))
    } else if s[i] == '\'' {
        (mk(TokKind::SingleQuote, i, i + 1, false, None, reg), (f.push(frame(FrameKind::SQuote, n)), br, false, false))
    } else if top_is(f, FrameKind::Backtick) {
        (mk(TokKind::Close, i, i + 1, false, Some(f.last().open), region_of(f.drop_last())), (f.drop_last(), br, false, false))
    } else {
        (mk(TokKind::Open, i, i + 1, false, None, reg), (f.push(frame(FrameKind::Backtick, n)), br, true, false))
    }
}

/// Token at `i` when the innermost frame is a double quote.
pub open spec fn dq_step(s: Seq<char>, i: int, n: nat, st: LexSt) -> (Token, LexSt) {
    let (f, br, cs, ad) = st;
    let reg = region_of(f);
    if s[i] == '"' {
        (mk(TokKind::Quote, i, i + 1, false, None, reg), (f.drop_last(), br, false, false))
    } else if s[i] == '\n' {
        (mk(TokKind::Newline, i, i + 1, false, None, reg), (f, br, false, false))
    } else if s[i] == '`' {
        quote_step(s, i, n, st)
    } else {
        (mk(TokKind::Word, i, word_end(s, i, RunMode::DQ), false, None, reg), (f, br, false, false))
    }
}

/// Token at `i` inside `$(( ))`.
pub open spec fn arith_step(s: Seq<char>, i: int, n: nat, st: LexSt) -> (Token, LexSt) {
    let (f, br, cs, ad) = st;
    let reg = region_of(f);
    let top = f.last();
    if s[i] == ')' && top.parens > 0 {
        (mk(TokKind::Word, i, i + 1, false, None, reg), (f.update(f.len() - 1, Frame { parens: (top.parens - 1) as usize, ..top }), br, false, false))
    } else if s[i] == ')' && next_is(s, i + 1, ')') {
        (mk(TokKind::Close, i, i + 2, false, Some(top.open), region_of(f.drop_last())), (f.drop_last(), br, false, false))
    } else if s[i] == ')' {
        (mk(TokKind::Close, i, i + 1, false, Some(top.open), region_of(f.drop_last())), (f.drop_last(), br, false, false))
    } else if s[i] == '(' {
        (mk(TokKind::Word, i, i + 1, false, None, reg), (f.update(f.len() - 1, Frame { parens: if top.parens < usize::MAX { (top.parens + 1) as usize } else { top.parens }, ..top }), br, false, false))
    } else if is_blank(s[i]) || s[i] == '\n' {
        (mk(TokKind::Space, i, run_fwd(s, i, space_p()), false, None, reg), (f, br, cs, false))
    } else if s[i] == '"' || s[i] == '\'' || s[i] == '`' {
        quote_step(s, i, n, st)
    } else {
        (mk(TokKind::Word, i, word_end(s, i, RunMode::Arith), false, None, reg), (f, br, false, false))
    }
}

/// Token at `i` inside `${ }`.
pub open spec fn param_step(s: Seq<char>, i: int, n: nat, st: LexSt) -> (Token, LexSt) {
    let (f, br, cs, ad) = st;
    let reg = region_of(f);
    if s[i] == '}' {
        (mk(TokKind::Close, i, i + 1, false, Some(f.last().open), region_of(f.drop_last())), (f.drop_last(), br, false, false))
    } else if is_blank(s[i]) || s[i] == '\n' {
        (mk(TokKind::Space, i, run_fwd(s, i, space_p()), false, None, reg), (f, br, cs, false))
    } else if s[i] == '"' || s[i] == '\'' || s[i] == '`' {
        quote_step(s, i, n, st)
    } else {
        (mk(TokKind::Word, i, word_end(s, i, RunMode::Param), false, None, reg), (f, br, false, false))
    }
}

/// Token for a word at `i` in command position or as an argument.
pub open spec fn word_step(s: Seq<char>, i: int, n: nat, st: LexSt) -> (Token, LexSt) {
    let (f, br, cs, ad) = st;
    let reg = region_of(f);
    let j = word_end(s, i, RunMode::Cmd(br.len() > 0));
    let j = if j <= i { i + 1 } else { j };
    if text2(s, i, j, '[', '[') {
        (mk(TokKind::Open, i, j, false, None, reg), (f.push(frame(FrameKind::DBracket, n)), br, true, false))
    } else if text2(s, i, j, ']', ']') && top_is(f, FrameKind::DBracket) {
        (mk(TokKind::Close, i, j, false, Some(f.last().open), region_of(f.drop_last())), (f.drop_last(), br, false, false))
    } else if cs && opens_compound(s, i, j) {
        (mk(TokKind::Open, i, j, false, None, reg), (f.push(frame(FrameKind::Compound, n)), br, true, false))
    } else if cs && closes_compound(s, i, j) && top_is(f, FrameKind::Compound) {
        (mk(TokKind::Close, i, j, false, Some(f.last().open), region_of(f.drop_last())), (f.drop_last(), br, false, false))
    } else if cs && splits_compound(s, i, j) && top_is(f, FrameKind::Compound) {
        (mk(TokKind::Sep, i, j, false, None, reg), (f, br, true, false))
    } else {
        (mk(TokKind::Word, i, j, false, None, reg), (f, br, false, false))
    }
}

/// Token at `i` in a command context (top level, substitutions, `[[ ]]`,
/// compounds).
pub open spec fn cmd_step(s: Seq<char>, i: int, n: nat, st: LexSt) -> (Token, LexSt) {
    let (f, br, cs, ad) = st;
    let reg = region_of(f);
    let c = s[i];
    if is_blank(c) {
        (mk(TokKind::Space, i, run_fwd(s, i, blank_p()), false, None, reg), (f, br, cs, false))
    } else if c == '\n' || c == ';' {
        (mk(TokKind::Sep, i, i + 1, false, None, reg), (f, br, true, false))
    } else if (c == '|' || c == '&') && next_is(s, i + 1, c) {
        (mk(TokKind::Sep, i, i + 2, false, None, reg), (f, br, true, false))
    } else if c == '|' || c == '&' {
        (mk(TokKind::Sep, i, i + 1, false, None, reg), (f, br, true, false))
    } else if (c == '<' || c == '>') && next_is(s, i + 1, '(') {
        (mk(TokKind::Open, i, i + 2, false, None, reg), (f.push(frame(FrameKind::Paren, n)), br, true, false))
    } else if c == '<' || c == '>' {
        (mk(TokKind::Redirect, i, run_fwd(s, i, redir_p()), false, None, reg), (f, br, false, false))
    } else if c == '(' {
        (mk(TokKind::Open, i, i + 1, false, None, reg), (f.push(frame(FrameKind::Paren, n)), br, true, false))
    } else if c == ')' && top_is(f, FrameKind::Paren) {
        (mk(TokKind::Close, i, i + 1, false, Some(f.last().open), region_of(f.drop_last())), (f.drop_last(), br, false, false))
    } else if c == ')' {
        (mk(TokKind::Word, i, i + 1, false, None, reg), (f, br, false, false))
    } else if c == '"' || c == '\'' || c == '`' {
        quote_step(s, i, n, st)
    } else if c == '{' {
        (mk(TokKind::LBrace, i, i + 1, false, None, reg), (f, br.push(n as usize), false, false))
    } else if c == '}' && br.len() > 0 {
        (mk(TokKind::RBrace, i, i + 1, false, Some(br.last()), reg), (f, br.drop_last(), false, false))
    } else {
        word_step(s, i, n, st)
    }
}

/// The token starting at `i` and the state after it; `n` tokens precede it.
pub open spec fn lex_step(s: Seq<char>, i: int, n: nat, st: LexSt) -> (Token, LexSt) {
    let (f, br, cs, ad) = st;
    let reg = region_of(f);
    if ad && is_name_char(s[i]) {
        (mk(TokKind::Word, i, run_fwd(s, i, name_p()), true, None, reg), (f, br, false, false))
    } else if top_is(f, FrameKind::SQuote) {
        if s[i] == '\'' {
            (mk(TokKind::SingleQuote, i, i + 1, false, None, reg), (f.drop_last(), br, false, false))
        } else {
            (mk(TokKind::Word, i, run_fwd(s, i, squoted_p()), false, None, reg), (f, br, false, false))
        }
    } else if s[i] == '$' {
        dollar_step(s, i, n, st)
    } else if top_is(f, FrameKind::DQuote) {
        dq_step(s, i, n, st)
    } else if top_is(f, FrameKind::Arith) {
        arith_step(s, i, n, st)
    } else if top_is(f, FrameKind::Param) {
        param_step(s, i, n, st)
    } else {
        cmd_step(s, i, n, st)
    }
}

/// Tokens of `s` from position `i`, `n` tokens having come before.
pub open spec fn lex_from(s: Seq<char>, i: int, n: nat, st: LexSt) -> Seq<Token>
    decreases s.len() - i,
{
    if i < 0 || i >= s.len() {
        Seq::empty()
    } else {
        let (t, st2) = lex_step(s, i, n, st);
        if t.end <= i || t.end > s.len() {
            Seq::empty()
        } else {
            seq![t] + lex_from(s, t.end as int, n + 1, st2)
        }
    }
}

/// The initial lexer state: nothing open, at the start of a command.
pub open spec fn lex_init() -> LexSt {
    (Seq::empty(), Seq::empty(), true, false)
}

/// The tokens of `s`.
pub open spec fn lex(s: Seq<char>) -> Seq<Token> {
    lex_from(s, 0, 0, lex_init())
}

proof fn lemma_word_end_bounds(s: Seq<char>, i: int, m: RunMode)
    requires
        0 <= i <= s.len(),
    ensures
        i <= word_end(s, i, m) <= s.len(),
    decreases s.len() - i,
{
    if i < s.len() {
        if s[i] == '\\' {
            if i + 1 < s.len() {
                lemma_word_end_bounds(s, i + 2, m);
            }
        } else if !stops(m, s[i]) {
            lemma_word_end_bounds(s, i + 1, m);
        }
    }
}

/// A word starting with a non-stop character or an escape is not empty.
proof fn lemma_word_end_progress(s: Seq<char>, i: int, m: RunMode)
    requires
        0 <= i < s.len(),
        !stops(m, s[i]) || s[i] == '\\',
    ensures
        i < word_end(s, i, m) <= s.len(),
{
    if s[i] == '\\' {
        if i + 1 < s.len() {
            lemma_word_end_bounds(s, i + 2, m);
        }
    } else {
        lemma_word_end_bounds(s, i + 1, m);
    }
}

fn blank(c: char) -> (b: bool)
    ensures
        b == is_blank(c),
{
    c != '\n' && is_whitespace(c)
}

fn name_char(c: char) -> (b: bool)
    ensures
        b == is_name_char(c),
{
    let u = c as u32;
    (0x30 <= u && u <= 0x39) || (0x41 <= u && u <= 0x5A) || (0x61 <= u && u <= 0x7A) || u == 0x5F
}

fn stops_exec(m: RunMode, c: char) -> (b: bool)
    ensures
        b == stops(m, c),
{
    match m {
        RunMode::Cmd(braces) => blank(c) || c == '\n' || c == '"' || c == '\'' || c == '`' || c
            == '$' || c == '(' || c == ')' || c == ';' || c == '|' || c == '&' || c == '<' || c
            == '>' || (braces && c == '}'),
        RunMode::DQ => c == '"' || c == '\n' || c == '$' || c == '`',
        RunMode::Arith => blank(c) || c == '\n' || c == '(' || c == ')' || c == '$' || c == '"'
            || c == '\'' || c == '`',
        RunMode::Param => blank(c) || c == '\n' || c == '}' || c == '$' || c == '"' || c == '\''
            || c == '`',
    }
}

fn word_end_exec(v: &Vec<char>, i: usize, m: RunMode) -> (r: usize)
    requires
        i <= v.len(),
    ensures
        r == word_end(v@, i as int, m),
        i <= r <= v.len(),
{
    let mut j = i;
    while j < v.len()
        invariant
            i <= j <= v.len(),
            word_end(v@, j as int, m) == word_end(v@, i as int, m),
        decreases v.len() - j,
    {
        if v[j] == '\\' {
            if j + 1 < v.len() {
                j = j + 2;
            } else {
                return v.len();
            }
        } else if stops_exec(m, v[j]) {
            return j;
        } else {
            j = j + 1;
        }
    }
    v.len()
}

/// End of the run of characters from `i` that satisfy the class `k`
/// (0 blanks, 1 blanks and newlines, 2 name characters, 3 `<` and `>`,
/// 4 anything but a single quote).
pub(crate) fn run_end(v: &Vec<char>, i: usize, k: u8) -> (r: usize)
    requires
        i <= v.len(),
        k <= 4,
    ensures
        r == run_fwd(v@, i as int, class_pred(k)),
        i <= r <= v.len(),
        i < v.len() && class_pred(k)(v@[i as int]) ==> i < r,
{
    proof {
        lemma_run_fwd_ge(v@, i as int, class_pred(k));
        if i < v.len() && class_pred(k)(v@[i as int]) {
            lemma_run_fwd_ge(v@, i + 1, class_pred(k));
        }
    }
    let mut j = i;
    while j < v.len() && in_class(k, v[j])
        invariant
            i <= j <= v.len(),
            k <= 4,
            run_fwd(v@, j as int, class_pred(k)) == run_fwd(v@, i as int, class_pred(k)),
        decreases v.len() - j,
    {
        j = j + 1;
    }
    j
}

pub open spec fn class_pred(k: u8) -> spec_fn(char) -> bool {
    if k == 0 {
        blank_p()
    } else if k == 1 {
        space_p()
    } else if k == 2 {
        name_p()
    } else if k == 3 {
        redir_p()
    } else {
        squoted_p()
    }
}

fn in_class(k: u8, c: char) -> (b: bool)
    requires
        k <= 4,
    ensures
        b == class_pred(k)(c),
{
    if k == 0 {
        blank(c)
    } else if k == 1 {
        blank(c) || c == '\n'
    } else if k == 2 {
        name_char(c)
    } else if k == 3 {
        c == '<' || c == '>'
    } else {
        c != '\''
    }
}

/// Lexer state of the executable lexer.
pub struct LexState {
    frames: Vec<Frame>,
    braces: Vec<usize>,
    cmd_start: bool,
    after_dollar: bool,
}

impl LexState {
    pub closed spec fn st(&self) -> LexSt {
        (self.frames@, self.braces@, self.cmd_start, self.after_dollar)
    }

    fn region(&self) -> (r: Option<usize>)
        ensures
            r == region_of(self.frames@),
    {
        let mut k = self.frames.len();
        proof {
            assert(self.frames@.take(k as int) =~= self.frames@);
        }
        while k > 0 && (self.frames[k - 1].kind == FrameKind::DQuote || self.frames[k - 1].kind
            == FrameKind::SQuote)
            invariant
                k <= self.frames.len(),
                region_of(self.frames@.take(k as int)) == region_of(self.frames@),
            decreases k,
        {
            proof {
                assert(self.frames@.take(k as int).drop_last() =~= self.frames@.take(k - 1));
            }
            k = k - 1;
        }
        if k == 0 {
            None
        } else {
            Some(self.frames[k - 1].open)
        }
    }

    fn region_below_top(&self) -> (r: Option<usize>)
        requires
            self.frames.len() > 0,
        ensures
            r == region_of(self.frames@.drop_last()),
    {
        let mut k = self.frames.len() - 1;
        proof {
            assert(self.frames@.take(k as int) =~= self.frames@.drop_last());
        }
        while k > 0 && (self.frames[k - 1].kind == FrameKind::DQuote || self.frames[k - 1].kind
            == FrameKind::SQuote)
            invariant
                k < self.frames.len(),
                region_of(self.frames@.take(k as int)) == region_of(self.frames@.drop_last()),
            decreases k,
        {
            proof {
                assert(self.frames@.take(k as int).drop_last() =~= self.frames@.take(k - 1));
            }
            k = k - 1;
        }
        if k == 0 {
            None
        } else {
            Some(self.frames[k - 1].open)
        }
    }

    fn top_is(&self, k: FrameKind) -> (b: bool)
        ensures
            b == top_is(self.frames@, k),
    {
        let n = self.frames.len();
        n > 0 && self.frames[n - 1].kind == k
    }

    fn push_frame(&mut self, kind: FrameKind, n: usize)
        ensures
            final(self).st() == (old(self).st().0.push(frame(kind, n as nat)), old(self).st().1, true, false),
    {
        self.frames.push(Frame { kind, open: n, parens: 0 });
        self.cmd_start = true;
        self.after_dollar = false;
    }

    fn pop_frame(&mut self)
        requires
            old(self).frames@.len() > 0,
        ensures
            final(self).st() == (old(self).st().0.drop_last(), old(self).st().1, false, false),
    {
        let _ = self.frames.pop();
        self.cmd_start = false;
        self.after_dollar = false;
    }

    fn set_parens(&mut self, up: bool)
        requires
            old(self).frames@.len() > 0,
            !up ==> old(self).frames@.last().parens > 0,
        ensures
            ({
                let f = old(self).st().0;
                let top = f.last();
                final(self).st() == (
                    f.update(
                        f.len() - 1,
                        Frame {
                            parens: if up {
                                if top.parens < usize::MAX {
                                    (top.parens + 1) as usize
                                } else {
                                    top.parens
                                }
                            } else {
                                (top.parens - 1) as usize
                            },
                            ..top
                        },
                    ),
                    old(self).st().1,
                    false,
                    false,
                )
            }),
    {
        let k = self.frames.len() - 1;
        let top = self.frames[k];
        let p = if up {
            if top.parens < usize::MAX {
                top.parens + 1
            } else {
                top.parens
            }
        } else {
            top.parens - 1
        };
        self.frames.set(k, Frame { parens: p, ..top });
        self.cmd_start = false;
        self.after_dollar = false;
    }

    fn set_flags(&mut self, cs: bool, ad: bool)
        ensures
            final(self).st() == (old(self).st().0, old(self).st().1, cs, ad),
    {
        self.cmd_start = cs;
        self.after_dollar = ad;
    }
}

fn tok(kind: TokKind, start: usize, end: usize, env: bool, mate: Option<usize>, region: Option<usize>) -> (t: Token)
    ensures
        t == mk(kind, start as int, end as int, env, mate, region),
{
    Token { kind, start, end, env, mate, region }
}

fn next_is_exec(v: &Vec<char>, i: usize, ch: char) -> (b: bool)
    ensures
        b == next_is(v@, i as int, ch),
{
    i < v.len() && v[i] == ch
}

fn dollar_exec(v: &Vec<char>, i: usize, n: usize, st: &mut LexState) -> (t: Token)
    requires
        i < v.len(),
        v@[i as int] == '$',
    ensures
        (t, final(st).st()) == dollar_step(v@, i as int, n as nat, old(st).st()),
        i < t.end <= v.len(),
{
    let reg = st.region();
    if next_is_exec(v, i + 1, '(') && next_is_exec(v, i + 2, '(') {
        st.push_frame(FrameKind::Arith, n);
        tok(TokKind::Open, i, i + 3, false, None, reg)
    } else if next_is_exec(v, i + 1, '(') {
        st.push_frame(FrameKind::Paren, n);
        tok(TokKind::Open, i, i + 2, false, None, reg)
    } else if next_is_exec(v, i + 1, '{') {
        st.push_frame(FrameKind::Param, n);
        tok(TokKind::Open, i, i + 2, false, None, reg)
    } else if i + 1 < v.len() && name_char(v[i + 1]) {
        st.set_flags(false, true);
        tok(TokKind::Dollar, i, i + 1, false, None, reg)
    } else {
        st.set_flags(false, false);
        tok(TokKind::Dollar, i, i + 1, false, None, reg)
    }
}

fn quote_exec(v: &Vec<char>, i: usize, n: usize, st: &mut LexState) -> (t: Token)
    requires
        i < v.len(),
        v@[i as int] == '"' || v@[i as int] == '\'' || v@[i as int] == '`',
    ensures
        (t, final(st).st()) == quote_step(v@, i as int, n as nat, old(st).st()),
        i < t.end <= v.len(),
{
    let reg = st.region();
    if v[i] == '"' {
        st.push_frame(FrameKind::DQuote, n);
        st.set_flags(false, false);
        tok(TokKind::Quote, i, i + 1, false, None, reg)
    } else if v[i] == '\'' {
        st.push_frame(FrameKind::SQuote, n);
        st.set_flags(false, false);
        tok(TokKind::SingleQuote, i, i + 1, false, None, reg)
    } else if st.top_is(FrameKind::Backtick) {
        let m = st.frames[st.frames.len() - 1].open;
        let r = st.region_below_top();
        st.pop_frame();
        tok(TokKind::Close, i, i + 1, false, Some(m), r)
    } else {
        st.push_frame(FrameKind::Backtick, n);
        tok(TokKind::Open, i, i + 1, false, None, reg)
    }
}

fn dq_exec(v: &Vec<char>, i: usize, n: usize, st: &mut LexState) -> (t: Token)
    requires
        i < v.len(),
        v@[i as int] != '$',
        top_is(old(st).st().0, FrameKind::DQuote),
    ensures
        (t, final(st).st()) == dq_step(v@, i as int, n as nat, old(st).st()),
        i < t.end <= v.len(),
{
    let reg = st.region();
    if v[i] == '"' {
        st.pop_frame();
        tok(TokKind::Quote, i, i + 1, false, None, reg)
    } else if v[i] == '\n' {
        st.set_flags(false, false);
        tok(TokKind::Newline, i, i + 1, false, None, reg)
    } else if v[i] == '`' {
        quote_exec(v, i, n, st)
    } else {
        let j = word_end_exec(v, i, RunMode::DQ);
        proof {
            lemma_word_end_progress(v@, i as int, RunMode::DQ);
        }
        st.set_flags(false, false);
        tok(TokKind::Word, i, j, false, None, reg)
    }
}

fn arith_exec(v: &Vec<char>, i: usize, n: usize, st: &mut LexState) -> (t: Token)
    requires
        i < v.len(),
        v@[i as int] != '$',
        top_is(old(st).st().0, FrameKind::Arith),
    ensures
        (t, final(st).st()) == arith_step(v@, i as int, n as nat, old(st).st()),
        i < t.end <= v.len(),
{
    let reg = st.region();
    let k = st.frames.len() - 1;
    let top = st.frames[k];
    if v[i] == ')' && top.parens > 0 {
        st.set_parens(false);
        tok(TokKind::Word, i, i + 1, false, None, reg)
    } else if v[i] == ')' && next_is_exec(v, i + 1, ')') {
        let r = st.region_below_top();
        st.pop_frame();
        tok(TokKind::Close, i, i + 2, false, Some(top.open), r)
    } else if v[i] == ')' {
        let r = st.region_below_top();
        st.pop_frame();
        tok(TokKind::Close, i, i + 1, false, Some(top.open), r)
    } else if v[i] == '(' {
        st.set_parens(true);
        tok(TokKind::Word, i, i + 1, false, None, reg)
    } else if blank(v[i]) || v[i] == '\n' {
        let j = run_end(v, i, 1);
        let cs = st.cmd_start;
        st.set_flags(cs, false);
        tok(TokKind::Space, i, j, false, None, reg)
    } else if v[i] == '"' || v[i] == '\'' || v[i] == '`' {
        quote_exec(v, i, n, st)
    } else {
        proof {
            lemma_word_end_progress(v@, i as int, RunMode::Arith);
        }
        let j = word_end_exec(v, i, RunMode::Arith);
        st.set_flags(false, false);
        tok(TokKind::Word, i, j, false, None, reg)
    }
}

fn param_exec(v: &Vec<char>, i: usize, n: usize, st: &mut LexState) -> (t: Token)
    requires
        i < v.len(),
        v@[i as int] != '$',
        top_is(old(st).st().0, FrameKind::Param),
    ensures
        (t, final(st).st()) == param_step(v@, i as int, n as nat, old(st).st()),
        i < t.end <= v.len(),
{
    let reg = st.region();
    if v[i] == '}' {
        let m = st.frames[st.frames.len() - 1].open;
        let r = st.region_below_top();
        st.pop_frame();
        tok(TokKind::Close, i, i + 1, false, Some(m), r)
    } else if blank(v[i]) || v[i] == '\n' {
        let j = run_end(v, i, 1);
        let cs = st.cmd_start;
        st.set_flags(cs, false);
        tok(TokKind::Space, i, j, false, None, reg)
    } else if v[i] == '"' || v[i] == '\'' || v[i] == '`' {
        quote_exec(v, i, n, st)
    } else {
        proof {
            lemma_word_end_progress(v@, i as int, RunMode::Param);
        }
        let j = word_end_exec(v, i, RunMode::Param);
        st.set_flags(false, false);
        tok(TokKind::Word, i, j, false, None, reg)
    }
}

fn text2_exec(v: &Vec<char>, i: usize, j: usize, a: char, b: char) -> (r: bool)
    requires
        i <= j <= v.len(),
    ensures
        r == text2(v@, i as int, j as int, a, b),
{
    j - i == 2 && v[i] == a && v[i + 1] == b
}

fn text3_exec(v: &Vec<char>, i: usize, j: usize, a: char, b: char, c: char) -> (r: bool)
    requires
        i <= j <= v.len(),
    ensures
        r == text3(v@, i as int, j as int, a, b, c),
{
    j - i == 3 && v[i] == a && v[i + 1] == b && v[i + 2] == c
}

fn text4_exec(v: &Vec<char>, i: usize, j: usize, a: char, b: char, c: char, d: char) -> (r: bool)
    requires
        i <= j <= v.len(),
    ensures
        r == text4(v@, i as int, j as int, a, b, c, d),
{
    j - i == 4 && v[i] == a && v[i + 1] == b && v[i + 2] == c && v[i + 3] == d
}

fn text5_exec(v: &Vec<char>, i: usize, j: usize, a: char, b: char, c: char, d: char, e: char) -> (r: bool)
    requires
        i <= j <= v.len(),
    ensures
        r == text5(v@, i as int, j as int, a, b, c, d, e),
{
    j - i == 5 && v[i] == a && v[i + 1] == b && v[i + 2] == c && v[i + 3] == d && v[i + 4] == e
}

fn word_exec(v: &Vec<char>, i: usize, n: usize, st: &mut LexState) -> (t: Token)
    requires
        i < v.len(),
    ensures
        (t, final(st).st()) == word_step(v@, i as int, n as nat, old(st).st()),
        i < t.end <= v.len(),
{
    let reg = st.region();
    let braces = st.braces.len() > 0;
    let j0 = word_end_exec(v, i, RunMode::Cmd(braces));
    let j = if j0 <= i {
        i + 1
    } else {
        j0
    };
    let cs = st.cmd_start;
    if text2_exec(v, i, j, '[', '[') {
        st.push_frame(FrameKind::DBracket, n);
        tok(TokKind::Open, i, j, false, None, reg)
    } else if text2_exec(v, i, j, ']', ']') && st.top_is(FrameKind::DBracket) {
        let m = st.frames[st.frames.len() - 1].open;
        let r = st.region_below_top();
        st.pop_frame();
        tok(TokKind::Close, i, j, false, Some(m), r)
    } else if cs && (text2_exec(v, i, j, 'i', 'f') || text3_exec(v, i, j, 'f', 'o', 'r')
        || text5_exec(v, i, j, 'w', 'h', 'i', 'l', 'e') || text5_exec(v, i, j, 'u', 'n', 't', 'i', 'l')) {
        st.push_frame(FrameKind::Compound, n);
        tok(TokKind::Open, i, j, false, None, reg)
    } else if cs && (text2_exec(v, i, j, 'f', 'i') || text4_exec(v, i, j, 'd', 'o', 'n', 'e'))
        && st.top_is(FrameKind::Compound) {
        let m = st.frames[st.frames.len() - 1].open;
        let r = st.region_below_top();
        st.pop_frame();
        tok(TokKind::Close, i, j, false, Some(m), r)
    } else if cs && (text4_exec(v, i, j, 't', 'h', 'e', 'n') || text4_exec(v, i, j, 'e', 'l', 's', 'e')
        || text4_exec(v, i, j, 'e', 'l', 'i', 'f') || text2_exec(v, i, j, 'd', 'o'))
        && st.top_is(FrameKind::Compound) {
        st.set_flags(true, false);
        tok(TokKind::Sep, i, j, false, None, reg)
    } else {
        st.set_flags(false, false);
        tok(TokKind::Word, i, j, false, None, reg)
    }
}

fn cmd_exec(v: &Vec<char>, i: usize, n: usize, st: &mut LexState) -> (t: Token)
    requires
        i < v.len(),
    ensures
        (t, final(st).st()) == cmd_step(v@, i as int, n as nat, old(st).st()),
        i < t.end <= v.len(),
{
    let reg = st.region();
    let c = v[i];
    if blank(c) {
        let j = run_end(v, i, 0);
        let cs = st.cmd_start;
        st.set_flags(cs, false);
        tok(TokKind::Space, i, j, false, None, reg)
    } else if c == '\n' || c == ';' {
        st.set_flags(true, false);
        tok(TokKind::Sep, i, i + 1, false, None, reg)
    } else if (c == '|' || c == '&') && next_is_exec(v, i + 1, c) {
        st.set_flags(true, false);
        tok(TokKind::Sep, i, i + 2, false, None, reg)
    } else if c == '|' || c == '&' {
        st.set_flags(true, false);
        tok(TokKind::Sep, i, i + 1, false, None, reg)
    } else if (c == '<' || c == '>') && next_is_exec(v, i + 1, '(') {
        st.push_frame(FrameKind::Paren, n);
        tok(TokKind::Open, i, i + 2, false, None, reg)
    } else if c == '<' || c == '>' {
        let j = run_end(v, i, 3);
        st.set_flags(false, false);
        tok(TokKind::Redirect, i, j, false, None, reg)
    } else if c == '(' {
        st.push_frame(FrameKind::Paren, n);
        tok(TokKind::Open, i, i + 1, false, None, reg)
    } else if c == ')' && st.top_is(FrameKind::Paren) {
        let m = st.frames[st.frames.len() - 1].open;
        let r = st.region_below_top();
        st.pop_frame();
        tok(TokKind::Close, i, i + 1, false, Some(m), r)
    } else if c == ')' {
        st.set_flags(false, false);
        tok(TokKind::Word, i, i + 1, false, None, reg)
    } else if c == '"' || c == '\'' || c == '`' {
        quote_exec(v, i, n, st)
    } else if c == '{' {
        st.braces.push(n);
        st.set_flags(false, false);
        tok(TokKind::LBrace, i, i + 1, false, None, reg)
    } else if c == '}' && st.braces.len() > 0 {
        let m = st.braces[st.braces.len() - 1];
        let _ = st.braces.pop();
        st.set_flags(false, false);
        tok(TokKind::RBrace, i, i + 1, false, Some(m), reg)
    } else {
        word_exec(v, i, n, st)
    }
}

fn lex_step_exec(v: &Vec<char>, i: usize, n: usize, st: &mut LexState) -> (t: Token)
    requires
        i < v.len(),
    ensures
        (t, final(st).st()) == lex_step(v@, i as int, n as nat, old(st).st()),
        i < t.end <= v.len(),
{
    let reg = st.region();
    if st.after_dollar && name_char(v[i]) {
        let j = run_end(v, i, 2);
        st.set_flags(false, false);
        tok(TokKind::Word, i, j, true, None, reg)
    } else if st.top_is(FrameKind::SQuote) {
        if v[i] == '\'' {
            st.pop_frame();
            tok(TokKind::SingleQuote, i, i + 1, false, None, reg)
        } else {
            let j = run_end(v, i, 4);
            st.set_flags(false, false);
            tok(TokKind::Word, i, j, false, None, reg)
        }
    } else if v[i] == '$' {
        dollar_exec(v, i, n, st)
    } else if st.top_is(FrameKind::DQuote) {
        dq_exec(v, i, n, st)
    } else if st.top_is(FrameKind::Arith) {
        arith_exec(v, i, n, st)
    } else if st.top_is(FrameKind::Param) {
        param_exec(v, i, n, st)
    } else {
        cmd_exec(v, i, n, st)
    }
}

/// The tokens of `v`.
pub fn lex_exec(v: &Vec<char>) -> (r: Vec<Token>)
    ensures
        r@ == lex(v@),
{
    let mut out: Vec<Token> = Vec::new();
    let mut st = LexState { frames: Vec::new(), braces: Vec::new(), cmd_start: true, after_dollar: false };
    let mut i: usize = 0;
    proof {
        assert(st.st() == lex_init());
    }
    while i < v.len()
        invariant
            i <= v.len(),
            out@ + lex_from(v@, i as int, out.len() as nat, st.st()) == lex(v@),
        decreases v.len() - i,
    {
        let ghost st0 = st.st();
        let ghost n0 = out.len();
        let t = lex_step_exec(v, i, out.len(), &mut st);
        proof {
            assert(lex_from(v@, i as int, n0 as nat, st0) == seq![t] + lex_from(v@, t.end as int, (n0 + 1) as nat, st.st()));
            assert(out@.push(t) + lex_from(v@, t.end as int, (n0 + 1) as nat, st.st()) =~= out@ + (seq![t] + lex_from(v@, t.end as int, (n0 + 1) as nat, st.st())));
        }
        out.push(t);
        i = t.end;
    }
    proof {
        assert(lex_from(v@, i as int, out.len() as nat, st.st()) =~= Seq::<Token>::empty());
        assert(out@ + Seq::<Token>::empty() =~= out@);
    }
    out
}

/// Every step yields a token starting where it was asked to.
proof fn lemma_step_start(s: Seq<char>, i: int, n: nat, st: LexSt)
    requires
        0 <= i < s.len(),
        s.len() <= usize::MAX,
    ensures
        lex_step(s, i, n, st).0.start == i,
{
}

proof fn lemma_lex_from_wf(s: Seq<char>, i: int, n: nat, st: LexSt)
    requires
        0 <= i,
        s.len() <= usize::MAX,
    ensures
        forall|k: int|
            0 <= k < lex_from(s, i, n, st).len() ==> i <= #[trigger] lex_from(s, i, n, st)[k].start
                < lex_from(s, i, n, st)[k].end <= s.len(),
        forall|a: int, b: int|
            0 <= a < b < lex_from(s, i, n, st).len() ==> #[trigger] lex_from(s, i, n, st)[a].end
                <= #[trigger] lex_from(s, i, n, st)[b].start,
    decreases s.len() - i,
{
    if i < s.len() {
        let (t, st2) = lex_step(s, i, n, st);
        if t.end > i && t.end <= s.len() {
            lemma_step_start(s, i, n, st);
            lemma_lex_from_wf(s, t.end as int, n + 1, st2);
            let rest = lex_from(s, t.end as int, n + 1, st2);
            assert forall|k: int| 0 <= k < lex_from(s, i, n, st).len() implies i
                <= #[trigger] lex_from(s, i, n, st)[k].start < lex_from(s, i, n, st)[k].end
                <= s.len() by {
                if k > 0 {
                    assert(lex_from(s, i, n, st)[k] == rest[k - 1]);
                }
            }
            assert forall|a: int, b: int|
                0 <= a < b < lex_from(s, i, n, st).len() implies #[trigger] lex_from(s, i, n, st)[a].end
                <= #[trigger] lex_from(s, i, n, st)[b].start by {
                assert(lex_from(s, i, n, st)[b] == rest[b - 1]);
                if a > 0 {
                    assert(lex_from(s, i, n, st)[a] == rest[a - 1]);
                } else {
                    assert(rest[b - 1].start >= t.end);
                }
            }
        }
    }
}

/// Tokens lie in the text and are not empty.
pub proof fn lemma_lex_wf(s: Seq<char>)
    requires
        s.len() <= usize::MAX,
    ensures
        forall|k: int| #![trigger lex(s)[k]] 0 <= k < lex(s).len() ==> lex(s)[k].start < lex(s)[k].end <= s.len(),
        forall|a: int, b: int| #![trigger lex(s)[a], lex(s)[b]] 0 <= a < b < lex(s).len() ==> lex(s)[a].end <= lex(s)[b].start,
{
    lemma_lex_from_wf(s, 0, 0, lex_init());
    let t = lex_from(s, 0, 0, lex_init());
    assert(lex(s) == t);
    assert forall|k: int| #![trigger lex(s)[k]] 0 <= k < lex(s).len() implies lex(s)[k].start < lex(s)[k].end
        <= s.len() by {
        assert(t[k].start < t[k].end <= s.len());
    }
    assert forall|a: int, b: int| #![trigger lex(s)[a], lex(s)[b]] 0 <= a < b < lex(s).len() implies lex(s)[a].end <= lex(s)[b].start by {
        assert(t[a].end <= t[b].start);
    }
}

} // verus!
