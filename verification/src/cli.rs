//! The computing parts of the `flyline` builtin's command line: option
//! values, and the arguments handed to the completion engine when the user
//! completes a `flyline` command.

use crate::settings::{MatrixAnimation, Placeholder};
use crate::text_buffer::same_chars_pub;
use crate::text_ops::{
    find_from, find_from_exec, has_prefix, has_prefix_exec, occurrences, parse_uint, slice_chars,
    uint_text,
};
use crate::unicode::{
    append_chars, byte_len, byte_offset, byte_offset_of, char_pos_for_byte, char_pos_of_byte,
    chars_of, is_boundary, str_byte_len, string_of,
};
use vstd::prelude::*;

verus! {

/// The message for a `--matrix-animation` value that is neither `on`,
/// `off` nor a count of seconds.
pub open spec fn matrix_animation_error(s: Seq<char>) -> Seq<char> {
    "expected `on`, `off`, or a non-negative integer, got `"@ + s + "`"@
}

/// The setting that a `--matrix-animation` value names: `on`, `off`, or a
/// number of idle seconds.
pub open spec fn matrix_animation_value(s: Seq<char>) -> Option<MatrixAnimation> {
    if s == "on"@ {
        Some(MatrixAnimation::On)
    } else if s == "off"@ {
        Some(MatrixAnimation::Off)
    } else {
        match uint_text(s, u64::MAX as nat) {
            Some(n) => Some(MatrixAnimation::IdleSecs(n as u64)),
            None => None,
        }
    }
}

/// Parse the value of `--matrix-animation`.
pub fn parse_matrix_animation(s: &str) -> (r: Result<MatrixAnimation, String>)
    ensures
        match matrix_animation_value(s@) {
            Some(m) => r == Ok::<MatrixAnimation, String>(m),
            None => r matches Err(e) && e@ == matrix_animation_error(s@),
        },
{
    let v = chars_of(s);
    if same_chars_pub(&v, &chars_of("on")) {
        return Ok(MatrixAnimation::On);
    }
    if same_chars_pub(&v, &chars_of("off")) {
        return Ok(MatrixAnimation::Off);
    }
    match parse_uint(&v, u64::MAX) {
        Some(n) => Ok(MatrixAnimation::IdleSecs(n)),
        None => {
            let mut m = chars_of("expected `on`, `off`, or a non-negative integer, got `");
            append_chars(&mut m, &v);
            append_chars(&mut m, &chars_of("`"));
            Err(string_of(&m))
        },
    }
}

/// The placeholder that a `--placeholder` value names: `prev`, or a number
/// of spaces.
pub open spec fn placeholder_value(s: Seq<char>) -> Option<Placeholder> {
    if s == "prev"@ {
        Some(Placeholder::Prev)
    } else {
        match uint_text(s, usize::MAX as nat) {
            Some(n) => Some(Placeholder::Spaces(n as usize)),
            None => None,
        }
    }
}

/// Parse the value of `--placeholder` of a custom prompt widget; `None`
/// when it is neither `prev` nor a number.
pub fn parse_placeholder(s: &str) -> (r: Option<Placeholder>)
    ensures
        r == placeholder_value(s@),
{
    let v = chars_of(s);
    if same_chars_pub(&v, &chars_of("prev")) {
        return Some(Placeholder::Prev);
    }
    match parse_uint(&v, usize::MAX as u64) {
        Some(n) => Some(Placeholder::Spaces(n as usize)),
        None => None,
    }
}

/// Why the command text before the word under the cursor was not found.
#[derive(Debug, Clone, Copy, PartialEq, Eq, Structural)]
pub enum ArgsError {
    /// The cursor lies beyond the end of the command.
    CursorOutside,
    /// The cursor splits a character.
    NotCharBoundary,
    /// No occurrence of the word touches the cursor.
    WordNotAtCursor,
}

/// The message of each `ArgsError`.
pub open spec fn args_error_message(e: ArgsError) -> Seq<char> {
    match e {
        ArgsError::CursorOutside => "cursor is outside raw command"@,
        ArgsError::NotCharBoundary => "cursor is not on a char boundary"@,
        ArgsError::WordNotAtCursor => "word under cursor not found at cursor"@,
    }
}

impl ArgsError {
    /// The error's message.
    pub fn message(&self) -> (m: String)
        ensures
            m@ == args_error_message(*self),
    {
        let v = match self {
            ArgsError::CursorOutside => chars_of("cursor is outside raw command"),
            ArgsError::NotCharBoundary => chars_of("cursor is not on a char boundary"),
            ArgsError::WordNotAtCursor => chars_of("word under cursor not found at cursor"),
        };
        string_of(&v)
    }
}

/// The first of the positions `ks` at which the occurrence of `p` in `s`
/// covers byte `c`, either end included.
pub open spec fn first_covering(s: Seq<char>, p: Seq<char>, ks: Seq<int>, c: int) -> Option<int>
    decreases ks.len(),
{
    if ks.len() == 0 {
        None
    } else {
        let b = byte_offset(s, ks[0]) as int;
        if b <= c && c <= b + byte_len(p) {
            Some(ks[0])
        } else {
            first_covering(s, p, ks.drop_first(), c)
        }
    }
}

/// The text of `raw` before the word under the cursor `wuc`, the cursor
/// being at byte `c`: with no word, everything before the cursor; else
/// everything before the first occurrence of the word, in left-to-right
/// non-overlapping order, that reaches the cursor.
pub open spec fn before_word(raw: Seq<char>, wuc: Seq<char>, c: int) -> Result<Seq<char>, ArgsError> {
    if c > byte_len(raw) {
        Err(ArgsError::CursorOutside)
    } else if wuc.len() == 0 {
        if is_boundary(raw, c) {
            Ok(raw.take(char_pos_of_byte(raw, c)))
        } else {
            Err(ArgsError::NotCharBoundary)
        }
    } else {
        match first_covering(raw, wuc, occurrences(raw, wuc, 0), c) {
            Some(k) => Ok(raw.take(k)),
            None => Err(ArgsError::WordNotAtCursor),
        }
    }
}

/// The part of `raw_command` that precedes the word under the cursor.
pub fn raw_command_before_word_under_cursor(raw_command: &str, wuc: &str, cursor_byte: usize) -> (r:
    Result<String, ArgsError>)
    ensures
        match before_word(raw_command@, wuc@, cursor_byte as int) {
            Ok(x) => r matches Ok(y) && y@ == x,
            Err(e) => r == Err::<String, ArgsError>(e),
        },
{
    let n = str_byte_len(raw_command);
    let v = chars_of(raw_command);
    if cursor_byte > n {
        return Err(ArgsError::CursorOutside);
    }
    let p = chars_of(wuc);
    if p.len() == 0 {
        return match char_pos_for_byte(&v, cursor_byte) {
            Some(k) => Ok(string_of(&slice_chars(&v, 0, k))),
            None => Err(ArgsError::NotCharBoundary),
        };
    }
    let pb = str_byte_len(wuc);
    let mut i: usize = 0;
    while i <= v.len()
        invariant
            v@ == raw_command@,
            p@ == wuc@,
            p.len() > 0,
            pb == byte_len(p@),
            n == byte_len(v@),
            cursor_byte <= n,
            first_covering(v@, p@, occurrences(v@, p@, i as int), cursor_byte as int)
                == first_covering(v@, p@, occurrences(v@, p@, 0), cursor_byte as int),
        decreases v.len() + 1 - i,
    {
        match find_from_exec(&v, &p, i) {
            None => {
                return Err(ArgsError::WordNotAtCursor);
            },
            Some(k) => {
                let ghost rest = occurrences(v@, p@, k + p.len());
                assert(occurrences(v@, p@, i as int) == seq![k as int] + rest);
                assert((seq![k as int] + rest).drop_first() =~= rest);
                let b = byte_offset_of(&v, k);
                if b <= cursor_byte && cursor_byte - b <= pb {
                    assert(v@.subrange(0, k as int) =~= v@.take(k as int));
                    return Ok(string_of(&slice_chars(&v, 0, k)));
                }
                i = k + p.len();
            },
        }
    }
    assert(occurrences(v@, p@, i as int) =~= Seq::<int>::empty());
    Err(ArgsError::WordNotAtCursor)
}

/// A completion value after the `prefix` that the user already typed:
/// values holding the `PREFIX_DELIM` marker, or not starting with the
/// prefix, are kept; others get the marker between prefix and rest.
pub open spec fn marked_candidate(value: Seq<char>, prefix: Seq<char>) -> Seq<char> {
    if find_from(value, "PREFIX_DELIM"@, 0) is Some {
        value
    } else if has_prefix(value, prefix) {
        prefix + "PREFIX_DELIM"@ + value.skip(prefix.len() as int)
    } else {
        value
    }
}

/// Insert the `PREFIX_DELIM` marker after the already typed `prefix` of a
/// completion value, so that the editor can tell typed and offered text
/// apart.
pub fn mark_candidate_prefix(value: &str, prefix: &str) -> (r: String)
    ensures
        r@ == marked_candidate(value@, prefix@),
{
    let v = chars_of(value);
    let pre = chars_of(prefix);
    let marker = chars_of("PREFIX_DELIM");
    if find_from_exec(&v, &marker, 0).is_some() {
        return string_of(&v);
    }
    if has_prefix_exec(&v, &pre) {
        let mut m = pre.clone();
        append_chars(&mut m, &marker);
        let rest = slice_chars(&v, pre.len(), v.len());
        assert(v@.subrange(pre.len() as int, v.len() as int) =~= v@.skip(pre.len() as int));
        append_chars(&mut m, &rest);
        string_of(&m)
    } else {
        string_of(&v)
    }
}

/// The argument list handed to the completion engine: when the last
/// argument ends in `=` or `:` the word under the cursor continues it, and
/// that argument is the prefix to mark in the offered values; otherwise the
/// word is a new argument.
pub open spec fn completion_args(args: Seq<Seq<char>>, wuc: Seq<char>) -> (Seq<Seq<char>>, Option<Seq<char>>) {
    if args.len() > 0 && args.last().len() > 0 && (args.last().last() == '=' || args.last().last()
        == ':') {
        (args.drop_last().push(args.last() + wuc), Some(args.last()))
    } else {
        (args.push(wuc), None)
    }
}

/// Add the dequoted word under the cursor to the arguments before it, as
/// `completion_args` says; returns the arguments and the prefix to mark.
pub fn add_word_under_cursor(args: Vec<String>, dequoted_wuc: &str) -> (r: (Vec<String>, Option<String>))
    ensures
        r.0@.map_values(|a: String| a@) == completion_args(args@.map_values(|a: String| a@), dequoted_wuc@).0,
        match (r.1, completion_args(args@.map_values(|a: String| a@), dequoted_wuc@).1) {
            (Some(x), Some(y)) => x@ == y,
            (None, None) => true,
            _ => false,
        },
{
    let ghost views = args@.map_values(|a: String| a@);
    let w = chars_of(dequoted_wuc);
    let mut out: Vec<String> = Vec::new();
    let k = args.len();
    let m: usize = if k > 0 { k - 1 } else { 0 };
    let mut i: usize = 0;
    while i < m
        invariant
            k == args.len(),
            m == (if k > 0 { k - 1 } else { 0 }),
            i <= m,
            out@.map_values(|a: String| a@) == views.take(i as int),
            views == args@.map_values(|a: String| a@),
        decreases k - i,
    {
        let a = string_of(&chars_of(args[i].as_str()));
        assert(views[i as int] == args@[i as int]@);
        let ghost before = out@;
        out.push(a);
        assert(out@.map_values(|a: String| a@) =~= before.map_values(|a: String| a@).push(a@));
        i = i + 1;
        assert(out@.map_values(|a: String| a@) =~= views.take(i as int));
    }
    if k > 0 {
        let last = chars_of(args[k - 1].as_str());
        assert(views[k - 1] == args@[k - 1]@);
        assert(views.last() == last@);
        let ghost before = out@;
        if last.len() > 0 && (last[last.len() - 1] == '=' || last[last.len() - 1] == ':') {
            let mut joined = last.clone();
            append_chars(&mut joined, &w);
            out.push(string_of(&joined));
            assert(out@.map_values(|a: String| a@) =~= before.map_values(|a: String| a@).push(joined@));
            proof {
                assert(views.drop_last() =~= views.take(k - 1));
            }
            assert(out@.map_values(|a: String| a@) =~= views.drop_last().push(views.last() + w@));
            return (out, Some(string_of(&last)));
        }
        out.push(string_of(&last));
        assert(out@.map_values(|a: String| a@) =~= before.map_values(|a: String| a@).push(last@));
        assert(out@.map_values(|a: String| a@) =~= views.take(k as int));
    }
    assert(views.take(k as int) =~= views);
    let ghost before2 = out@;
    out.push(string_of(&w));
    assert(out@.map_values(|a: String| a@) =~= before2.map_values(|a: String| a@).push(w@));
    assert(out@.map_values(|a: String| a@) =~= views.push(w@));
    (out, None)
}

/// The words that `shlex::split` makes of a text, `None` when its quoting
/// is broken.
pub uninterp spec fn shell_words(s: Seq<char>) -> Option<Seq<Seq<char>>>;

/// The views of a list of strings.
pub open spec fn string_views(v: Seq<String>) -> Seq<Seq<char>> {
    v.map_values(|x: String| x@)
}

/// `shlex::split`: the words of a text as a POSIX shell splits them.
#[verifier::external_body]
fn shlex_split(s: &str) -> (r: Option<Vec<String>>)
    ensures
        match r {
            Some(v) => shell_words(s@) == Some(string_views(v@)),
            None => shell_words(s@) is None,
        },
{
    shlex::split(s)
}

/// The program and arguments of a `--command` value, given what the shell
/// splitting made of it: its shell words, or, when the quoting is broken,
/// its whitespace-separated words; `None` when there are none.
pub open spec fn command_words(split: Option<Seq<Seq<char>>>, command: Seq<char>) -> Option<Seq<Seq<char>>> {
    let ws = match split {
        Some(w) => w,
        None => crate::text_ops::words(command),
    };
    if ws.len() == 0 {
        None
    } else {
        Some(ws)
    }
}

/// The program and arguments of `command` from the result `split` of
/// splitting it as a shell would (see `command_words`).
pub fn command_args_from(split: Option<Vec<String>>, command: &str) -> (r: Option<Vec<String>>)
    ensures
        match (r, command_words(
            match split {
                Some(v) => Some(string_views(v@)),
                None => None,
            },
            command@,
        )) {
            (Some(x), Some(y)) => string_views(x@) == y,
            (None, None) => true,
            _ => false,
        },
{
    let ws: Vec<String> = match split {
        Some(v) => v,
        None => {
            let w = crate::text_ops::words_exec(&chars_of(command));
            let mut out: Vec<String> = Vec::new();
            let mut i: usize = 0;
            while i < w.len()
                invariant
                    i <= w.len(),
                    string_views(out@) == w@.map_values(|x: Vec<char>| x@).take(i as int),
                decreases w.len() - i,
            {
                let ghost before = out@;
                let st = string_of(&w[i]);
                out.push(st);
                assert(string_views(out@) =~= string_views(before).push(st@));
                assert(w@.map_values(|x: Vec<char>| x@).take(i + 1) =~= w@.map_values(|x: Vec<char>| x@).take(i as int).push(w@[i as int]@));
                i = i + 1;
            }
            assert(w@.map_values(|x: Vec<char>| x@).take(w.len() as int) =~= w@.map_values(|x: Vec<char>| x@));
            out
        },
    };
    if ws.len() == 0 {
        None
    } else {
        Some(ws)
    }
}

/// The program and arguments of a `--command` value (see
/// `command_words`); `None` when it names none, which the command line
/// rejects as empty.
pub fn split_command_args(command: &str) -> (r: Option<Vec<String>>)
    ensures
        match (r, command_words(shell_words(command@), command@)) {
            (Some(x), Some(y)) => string_views(x@) == y,
            (None, None) => true,
            _ => false,
        },
{
    command_args_from(shlex_split(command), command)
}

/// Why a `NAME=STYLE` argument of `flyline set-style` was refused.
#[derive(Debug, Clone, PartialEq, Eq)]
pub enum StyleArgError {
    /// The argument has no `=`.
    NotAssignment,
    /// No style slot has this name.
    UnknownName(String),
}

/// Split a `NAME=STYLE` argument of `flyline set-style` at its first `=`
/// and find the named style slot; the style text is returned as it is.
pub fn parse_style_assignment(arg: &str) -> (r: Result<(crate::palette::PaletteStyleKind, String), StyleArgError>)
    ensures
        match crate::text_ops::split_once(arg@, '=') {
            None => r == Err::<(crate::palette::PaletteStyleKind, String), StyleArgError>(StyleArgError::NotAssignment),
            Some((name, style)) => {
                ||| (r matches Ok(x) && crate::palette::style_name(x.0) == name && x.1@ == style
                    && crate::palette::kind_named(name) == Some(x.0))
                ||| (r matches Err(StyleArgError::UnknownName(n)) && n@ == name && crate::palette::kind_named(name) is None
                    && forall|k: crate::palette::PaletteStyleKind| crate::palette::style_name(k) != name)
            },
        },
{
    let v = chars_of(arg);
    match crate::text_ops::split_once_exec(&v, '=') {
        None => Err(StyleArgError::NotAssignment),
        Some((name, style)) => {
            let n = string_of(&name);
            match crate::palette::style_kind_from_name(n.as_str()) {
                Some(k) => Ok((k, string_of(&style))),
                None => Err(StyleArgError::UnknownName(n)),
            }
        },
    }
}

} // verus!
