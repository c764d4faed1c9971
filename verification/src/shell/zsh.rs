//! The zsh backend's parsing: completion captures from the completion
//! daemon, and the dump of the shell's command vocabulary.

use crate::shell::{CommandTable, CommandWordInfo, InfoView, TableView, empty_table};
use crate::text_buffer::same_chars_pub;
use crate::text_ops::{
    find_from, find_from_exec, has_prefix, has_prefix_exec, lines, lines_exec, slice_chars,
    split_once, split_once_exec, trim, trim_end_char, trim_end_char_exec, trim_exec,
};
use crate::unicode::{chars_of, string_of, append_chars};
use vstd::prelude::*;

verus! {

/// `p` occurs somewhere in `s`.
pub open spec fn has_sub(s: Seq<char>, p: Seq<char>) -> bool {
    find_from(s, p, 0) is Some
}

/// A capture line `value` or `value -- description`; a blank description
/// counts as none.
pub open spec fn capture_line_spec(line: Seq<char>) -> (Seq<char>, Option<Seq<char>>) {
    match find_from(line, " -- "@, 0) {
        Some(pos) => {
            let d = trim(line.skip(pos + " -- "@.len()));
            (line.take(pos), if d.len() == 0 {
                None
            } else {
                Some(d)
            })
        },
        None => (line, None),
    }
}

/// The pairs read from lines `i..` of a capture, `inside` telling whether
/// the begin marker was seen: lines after the begin marker and before the
/// end marker, trailing `\r` dropped, empty lines skipped.
pub open spec fn capture_from(ls: Seq<Seq<char>>, i: int, inside: bool) -> Seq<(Seq<char>, Option<Seq<char>>)>
    decreases ls.len() - i,
{
    if i < 0 || i >= ls.len() {
        Seq::empty()
    } else {
        let l = trim_end_char(ls[i], '\r');
        if has_sub(l, "<<FLYEND>>"@) {
            Seq::empty()
        } else {
            let head = if inside && l.len() > 0 {
                seq![capture_line_spec(l)]
            } else {
                Seq::empty()
            };
            head + capture_from(ls, i + 1, inside || has_sub(l, "<<FLYBEGIN>>"@))
        }
    }
}

/// The content of a parsed pair.
pub open spec fn pair_view(p: (String, Option<String>)) -> (Seq<char>, Option<Seq<char>>) {
    (p.0@, match p.1 {
        Some(d) => Some(d@),
        None => None,
    })
}

/// The completion string of a pair: `value\tdescription`, or the value.
pub open spec fn completion_string(p: (String, Option<String>)) -> Seq<char> {
    match p.1 {
        Some(d) => p.0@ + seq!['\t'] + d@,
        None => p.0@,
    }
}

fn capture_line_chars(line: &Vec<char>) -> (r: (String, Option<String>))
    ensures
        pair_view(r) == capture_line_spec(line@),
{
    let sep = chars_of(" -- ");
    match find_from_exec(line, &sep, 0) {
        Some(pos) => {
            let value = slice_chars(line, 0, pos);
            assert(value@ =~= line@.take(pos as int));
            let rest = slice_chars(line, pos + sep.len(), line.len());
            assert(rest@ =~= line@.skip(pos + sep@.len()));
            let d = trim_exec(&rest);
            if d.len() == 0 {
                (string_of(&value), None)
            } else {
                (string_of(&value), Some(string_of(&d)))
            }
        },
        None => (string_of(line), None),
    }
}

/// Parse one capture line `value` or `value -- description`.
pub fn parse_capture_line(line: &str) -> (r: (String, Option<String>))
    ensures
        pair_view(r) == capture_line_spec(line@),
{
    capture_line_chars(&chars_of(line))
}

/// The `(value, description)` pairs between the `<<FLYBEGIN>>` and
/// `<<FLYEND>>` markers of the daemon's output.
pub fn parse_capture_output(blob: &str) -> (r: Vec<(String, Option<String>)>)
    ensures
        r@.map_values(|p: (String, Option<String>)| pair_view(p)) == capture_from(lines(blob@), 0, false),
{
    let v = chars_of(blob);
    let ls = lines_exec(&v);
    let ghost lv = ls@.map_values(|l: Vec<char>| l@);
    let begin = chars_of("<<FLYBEGIN>>");
    let end = chars_of("<<FLYEND>>");
    let mut out: Vec<(String, Option<String>)> = Vec::new();
    let mut inside = false;
    let mut i: usize = 0;
    while i < ls.len()
        invariant
            lv == ls@.map_values(|l: Vec<char>| l@),
            lv == lines(blob@),
            begin@ == "<<FLYBEGIN>>"@,
            end@ == "<<FLYEND>>"@,
            i <= ls.len(),
            out@.map_values(|p: (String, Option<String>)| pair_view(p)) + capture_from(lv, i as int, inside)
                == capture_from(lv, 0, false),
        decreases ls.len() - i,
    {
        let l = trim_end_char_exec(&ls[i], '\r');
        assert(lv[i as int] == ls@[i as int]@);
        if find_from_exec(&l, &end, 0).is_some() {
            proof {
                assert(capture_from(lv, i as int, inside) =~= Seq::<(Seq<char>, Option<Seq<char>>)>::empty());
                assert(out@.map_values(|p: (String, Option<String>)| pair_view(p)) + Seq::<(Seq<char>, Option<Seq<char>>)>::empty()
                    =~= out@.map_values(|p: (String, Option<String>)| pair_view(p)));
            }
            return out;
        }
        let ghost o0 = out@.map_values(|p: (String, Option<String>)| pair_view(p));
        let ghost in0 = inside;
        if inside && l.len() > 0 {
            let pr = capture_line_chars(&l);
            let ghost old_out = out@;
            out.push(pr);
            proof {
                assert(out@.map_values(|p: (String, Option<String>)| pair_view(p)) =~= o0.push(pair_view(pr)));
            }
        }
        let is_begin = find_from_exec(&l, &begin, 0).is_some();
        inside = inside || is_begin;
        proof {
            let head = if in0 && l@.len() > 0 {
                seq![capture_line_spec(l@)]
            } else {
                Seq::<(Seq<char>, Option<Seq<char>>)>::empty()
            };
            assert(capture_from(lv, i as int, in0) == head + capture_from(lv, i + 1, inside));
            assert(out@.map_values(|p: (String, Option<String>)| pair_view(p)) =~= o0 + head);
            assert(o0 + head + capture_from(lv, i + 1, inside) =~= o0 + (head + capture_from(lv, i + 1, inside)));
        }
        i = i + 1;
    }
    proof {
        assert(capture_from(lv, i as int, inside) =~= Seq::<(Seq<char>, Option<Seq<char>>)>::empty());
        assert(out@.map_values(|p: (String, Option<String>)| pair_view(p)) + Seq::<(Seq<char>, Option<Seq<char>>)>::empty()
            =~= out@.map_values(|p: (String, Option<String>)| pair_view(p)));
    }
    out
}

/// The completion strings of the pairs: `value\tdescription`, or the value
/// alone.
pub fn pairs_to_completion_strings(pairs: &[(String, Option<String>)]) -> (r: Vec<String>)
    ensures
        r@.len() == pairs@.len(),
        forall|k: int| 0 <= k < pairs@.len() ==> #[trigger] r@[k]@ == completion_string(pairs@[k]),
{
    let mut out: Vec<String> = Vec::new();
    let mut i: usize = 0;
    while i < pairs.len()
        invariant
            i <= pairs@.len(),
            out@.len() == i,
            forall|k: int| 0 <= k < i ==> #[trigger] out@[k]@ == completion_string(pairs@[k]),
        decreases pairs@.len() - i,
    {
        let (value, desc) = &pairs[i];
        let s = match desc {
            Some(d) => {
                let mut v = chars_of(value.as_str());
                v.push('\t');
                append_chars(&mut v, &chars_of(d.as_str()));
                string_of(&v)
            },
            None => value.clone(),
        };
        out.push(s);
        i = i + 1;
    }
    out
}

/// The table after reading one dump line `FLYT\t<kind>\t<name>[\t<extra>]`;
/// other lines, unknown kinds and empty names change nothing.
pub open spec fn zsh_line(tv: TableView, line: Seq<char>) -> TableView {
    if !has_prefix(line, "FLYT\t"@) {
        tv
    } else {
        match split_once(line.skip("FLYT\t"@.len() as int), '\t') {
            None => tv,
            Some((kind, tail)) => {
                let (name, extra) = match split_once(tail, '\t') {
                    Some((n, e)) => (n, e),
                    None => (tail, Seq::empty()),
                };
                if name.len() == 0 {
                    tv
                } else if kind == "alias"@ {
                    TableView {
                        aliases: tv.aliases.insert(name, extra),
                        ordered: tv.ordered.push(InfoView::Alias(name, extra)),
                        ..tv
                    }
                } else if kind == "function"@ {
                    TableView {
                        functions: tv.functions.insert(name),
                        ordered: tv.ordered.push(InfoView::Function(name, None, None)),
                        ..tv
                    }
                } else if kind == "builtin"@ {
                    TableView {
                        builtins: tv.builtins.insert(name),
                        ordered: tv.ordered.push(InfoView::Builtin(name, None)),
                        ..tv
                    }
                } else if kind == "reserved"@ {
                    TableView {
                        keywords: tv.keywords.insert(name),
                        ordered: tv.ordered.push(InfoView::Keyword(name, None)),
                        ..tv
                    }
                } else if kind == "command"@ {
                    TableView {
                        commands: tv.commands.insert(name, extra),
                        ordered: tv.ordered.push(InfoView::File(name, extra)),
                        ..tv
                    }
                } else {
                    tv
                }
            },
        }
    }
}

/// The table read from the dump lines `ls`, in order.
pub open spec fn zsh_lines(ls: Seq<Seq<char>>) -> TableView
    decreases ls.len(),
{
    if ls.len() == 0 {
        empty_table()
    } else {
        zsh_line(zsh_lines(ls.drop_last()), ls.last())
    }
}

/// What zsh says a command word is: an alias, else a function, builtin,
/// reserved word or executable, else unknown.
pub open spec fn zsh_info(tv: TableView, cmd: Seq<char>) -> InfoView {
    if tv.aliases.contains_key(cmd) {
        InfoView::Alias(cmd, tv.aliases[cmd])
    } else if tv.functions.contains(cmd) {
        InfoView::Function(cmd, None, None)
    } else if tv.builtins.contains(cmd) {
        InfoView::Builtin(cmd, None)
    } else if tv.keywords.contains(cmd) {
        InfoView::Keyword(cmd, None)
    } else if tv.commands.contains_key(cmd) {
        InfoView::File(cmd, tv.commands[cmd])
    } else {
        InfoView::Unknown(cmd)
    }
}

fn is_word(v: &Vec<char>, w: &str) -> (b: bool)
    ensures
        b == (v@ == w@),
{
    same_chars_pub(v, &chars_of(w))
}

fn apply_line(table: &mut CommandTable, line: &Vec<char>)
    ensures
        final(table)@ == zsh_line(old(table)@, line@),
{
    let pre = chars_of("FLYT\t");
    if !has_prefix_exec(line, &pre) {
        return;
    }
    let rest = slice_chars(line, pre.len(), line.len());
    assert(rest@ =~= line@.skip(pre@.len() as int));
    match split_once_exec(&rest, '\t') {
        None => {},
        Some((kind, tail)) => {
            let (name, extra) = match split_once_exec(&tail, '\t') {
                Some((n, e)) => (n, e),
                None => {
                    let e: Vec<char> = Vec::new();
                    assert(e@ =~= Seq::<char>::empty());
                    (slice_chars(&tail, 0, tail.len()), e)
                },
            };
            assert(tail@.subrange(0, tail@.len() as int) =~= tail@);
            if name.len() == 0 {
                return;
            }
            if is_word(&kind, "alias") {
                table.add_alias(string_of(&name), string_of(&extra));
            } else if is_word(&kind, "function") {
                table.add_function(string_of(&name));
            } else if is_word(&kind, "builtin") {
                table.add_builtin(string_of(&name));
            } else if is_word(&kind, "reserved") {
                table.add_keyword(string_of(&name));
            } else if is_word(&kind, "command") {
                table.add_command(string_of(&name), string_of(&extra));
            }
        },
    }
}

/// Parse the `FLYT`-prefixed dump lines of `out` into a command table,
/// ignoring other lines.
pub fn parse_command_table(out: &str) -> (t: CommandTable)
    ensures
        t@ == zsh_lines(lines(out@)),
{
    let v = chars_of(out);
    let ls = lines_exec(&v);
    let ghost lv = ls@.map_values(|l: Vec<char>| l@);
    let mut table = CommandTable::new();
    let mut i: usize = 0;
    while i < ls.len()
        invariant
            lv == ls@.map_values(|l: Vec<char>| l@),
            lv == lines(out@),
            i <= ls.len(),
            table@ == zsh_lines(lv.take(i as int)),
        decreases ls.len() - i,
    {
        proof {
            assert(lv.take(i + 1).drop_last() =~= lv.take(i as int));
            assert(lv.take(i + 1).last() == ls@[i as int]@);
        }
        apply_line(&mut table, &ls[i]);
        i = i + 1;
    }
    proof {
        assert(lv.take(ls.len() as int) =~= lv);
    }
    table
}

/// The zsh backend's view of the shell's command vocabulary.
pub struct ZshBackend {
    pub command_table: CommandTable,
}

impl ZshBackend {
    /// The backend over a command table read from zsh.
    pub fn new(command_table: CommandTable) -> (b: Self)
        ensures
            b.command_table@ == command_table@,
    {
        ZshBackend { command_table }
    }

    /// The expansion of alias `cmd`, unless empty.
    pub fn find_alias(&self, cmd: &str) -> (r: Option<String>)
        ensures
            match r {
                Some(v) => self.command_table@.aliases.contains_key(cmd@)
                    && self.command_table@.aliases[cmd@] == v@ && v@.len() > 0,
                None => !self.command_table@.aliases.contains_key(cmd@)
                    || self.command_table@.aliases[cmd@].len() == 0,
            },
    {
        self.command_table.find_alias(cmd)
    }

    /// What `cmd` names (see `zsh_info`).
    pub fn command_info(&self, cmd: &str) -> (r: CommandWordInfo)
        ensures
            r@ == zsh_info(self.command_table@, cmd@),
    {
        let t = &self.command_table;
        match t.alias(cmd) {
            Some(e) => {
                return CommandWordInfo::Alias { command: cmd.to_owned(), expansion: e };
            },
            None => {},
        }
        if t.is_function(cmd) {
            return CommandWordInfo::Function { command: cmd.to_owned(), source_file: None, line: None };
        }
        if t.is_builtin(cmd) {
            return CommandWordInfo::Builtin { command: cmd.to_owned(), usage: None };
        }
        if t.is_keyword(cmd) {
            return CommandWordInfo::Keyword { command: cmd.to_owned(), usage: None };
        }
        match t.command_path(cmd) {
            Some(p) => CommandWordInfo::File { command: cmd.to_owned(), path: p },
            None => CommandWordInfo::Unknown { command: cmd.to_owned() },
        }
    }

    /// Every command word, in the order it was read.
    pub fn possible_command_words(&self) -> (r: Vec<CommandWordInfo>)
        ensures
            r@.map_values(|x: CommandWordInfo| x@) == self.command_table@.ordered,
    {
        self.command_table.possible_command_words()
    }
}

} // verus!
