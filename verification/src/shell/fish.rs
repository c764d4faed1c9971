//! The fish backend's parsing of the shell's command vocabulary (`abbr`,
//! `alias`, builtin and function listings) and its command lookups.

use crate::shell::{CommandTable, CommandWordInfo, InfoView, TableView, empty_table};
use crate::text_buffer::{run_fwd, same_chars_pub};
use crate::text_ops::{
    find_from, find_from_exec, has_prefix, has_prefix_exec, lines, lines_exec, slice_chars,
    split_once, split_once_exec, trim, trim_exec,
};
use crate::unicode::{append_chars, chars_of, string_of};
use vstd::prelude::*;

verus! {

/// `s` without one enclosing pair of single quotes.
pub open spec fn unquote_spec(s: Seq<char>) -> Seq<char> {
    if s.len() >= 2 && s[0] == '\'' && s[s.len() - 1] == '\'' {
        s.subrange(1, s.len() - 1)
    } else {
        s
    }
}

/// The name and expansion of an `abbr --show` line
/// `abbr -a [flags] -- name expansion`.
pub open spec fn abbr_spec(line: Seq<char>) -> Option<(Seq<char>, Seq<char>)> {
    if !has_prefix(line, "abbr "@) {
        None
    } else {
        let rest = line.skip("abbr "@.len() as int);
        match find_from(rest, " -- "@, 0) {
            None => None,
            Some(pos) => match split_once(trim(rest.skip(pos + " -- "@.len())), ' ') {
                None => None,
                Some((name, expansion)) => if name.len() == 0 {
                    None
                } else {
                    Some((name, unquote_spec(trim(expansion))))
                },
            },
        }
    }
}

/// The name and body of an `alias` listing line `alias name body`.
pub open spec fn alias_spec(line: Seq<char>) -> Option<(Seq<char>, Seq<char>)> {
    if !has_prefix(line, "alias "@) {
        None
    } else {
        match split_once(line.skip("alias "@.len() as int), ' ') {
            None => None,
            Some((name, body)) => if name.len() == 0 {
                None
            } else {
                Some((name, unquote_spec(trim(body))))
            },
        }
    }
}

/// The block-structure builtins fish shows as keywords.
pub open spec fn fish_keyword(w: Seq<char>) -> bool {
    ||| w == "and"@
    ||| w == "begin"@
    ||| w == "break"@
    ||| w == "case"@
    ||| w == "continue"@
    ||| w == "else"@
    ||| w == "end"@
    ||| w == "for"@
    ||| w == "function"@
    ||| w == "if"@
    ||| w == "not"@
    ||| w == "or"@
    ||| w == "return"@
    ||| w == "switch"@
    ||| w == "while"@
}

/// The table after reading one dump line `FLYT\t<kind>\t<value>`; other
/// lines, unknown kinds and empty values change nothing.
pub open spec fn fish_line(tv: TableView, line: Seq<char>) -> TableView {
    if !has_prefix(line, "FLYT\t"@) {
        tv
    } else {
        match split_once(line.skip("FLYT\t"@.len() as int), '\t') {
            None => tv,
            Some((kind, value)) => if value.len() == 0 {
                tv
            } else if kind == "builtin"@ {
                if fish_keyword(value) {
                    TableView {
                        keywords: tv.keywords.insert(value),
                        ordered: tv.ordered.push(InfoView::Keyword(value, None)),
                        ..tv
                    }
                } else {
                    TableView {
                        builtins: tv.builtins.insert(value),
                        ordered: tv.ordered.push(InfoView::Builtin(value, None)),
                        ..tv
                    }
                }
            } else if kind == "function"@ {
                TableView {
                    functions: tv.functions.insert(value),
                    ordered: tv.ordered.push(InfoView::Function(value, None, None)),
                    ..tv
                }
            } else if kind == "rawabbr"@ || kind == "rawalias"@ {
                let parsed = if kind == "rawabbr"@ {
                    abbr_spec(value)
                } else {
                    alias_spec(value)
                };
                match parsed {
                    Some((n, e)) => TableView {
                        aliases: tv.aliases.insert(n, e),
                        ordered: tv.ordered.push(InfoView::Alias(n, e)),
                        ..tv
                    },
                    None => tv,
                }
            } else {
                tv
            },
        }
    }
}

/// The table read from the dump lines `ls`, in order.
pub open spec fn fish_lines(ls: Seq<Seq<char>>) -> TableView
    decreases ls.len(),
{
    if ls.len() == 0 {
        empty_table()
    } else {
        fish_line(fish_lines(ls.drop_last()), ls.last())
    }
}

/// The table with the executables `paths` (name, path) added in order.
pub open spec fn with_paths(tv: TableView, paths: Seq<(String, String)>) -> TableView
    decreases paths.len(),
{
    if paths.len() == 0 {
        tv
    } else {
        let t = with_paths(tv, paths.drop_last());
        TableView {
            commands: t.commands.insert(paths.last().0@, paths.last().1@),
            ordered: t.ordered.push(InfoView::File(paths.last().0@, paths.last().1@)),
            ..t
        }
    }
}

/// What fish says a command word is: an alias, else a function, keyword,
/// builtin or executable, else unknown.
pub open spec fn fish_info(tv: TableView, cmd: Seq<char>) -> InfoView {
    if tv.aliases.contains_key(cmd) {
        InfoView::Alias(cmd, tv.aliases[cmd])
    } else if tv.functions.contains(cmd) {
        InfoView::Function(cmd, None, None)
    } else if tv.keywords.contains(cmd) {
        InfoView::Keyword(cmd, None)
    } else if tv.builtins.contains(cmd) {
        InfoView::Builtin(cmd, None)
    } else if tv.commands.contains_key(cmd) {
        InfoView::File(cmd, tv.commands[cmd])
    } else {
        InfoView::Unknown(cmd)
    }
}

/// A name fish lists as a builtin, and not as an alias, function or
/// keyword, is a builtin even when an executable of that name is on the
/// path; an executable is found only for names fish knows in no other way.
pub proof fn law_builtin_before_executable(tv: TableView, cmd: Seq<char>)
    ensures
        tv.builtins.contains(cmd) && !tv.aliases.contains_key(cmd) && !tv.functions.contains(cmd)
            && !tv.keywords.contains(cmd) ==> fish_info(tv, cmd) == InfoView::Builtin(cmd, None),
        fish_info(tv, cmd) is File ==> !tv.builtins.contains(cmd) && !tv.aliases.contains_key(cmd)
            && !tv.functions.contains(cmd) && !tv.keywords.contains(cmd) && tv.commands.contains_key(cmd),
{
}

fn unquote_chars(v: &Vec<char>) -> (r: Vec<char>)
    ensures
        r@ == unquote_spec(v@),
{
    if v.len() >= 2 && v[0] == '\'' && v[v.len() - 1] == '\'' {
        slice_chars(v, 1, v.len() - 1)
    } else {
        slice_chars(v, 0, v.len())
    }
}

/// `s` without one enclosing pair of single quotes.
pub fn unquote(s: &str) -> (r: String)
    ensures
        r@ == unquote_spec(s@),
{
    let v = chars_of(s);
    string_of(&unquote_chars(&v))
}

fn abbr_chars(line: &Vec<char>) -> (r: Option<(String, String)>)
    ensures
        match (r, abbr_spec(line@)) {
            (Some(x), Some(y)) => x.0@ == y.0 && x.1@ == y.1,
            (None, None) => true,
            _ => false,
        },
{
    let pre = chars_of("abbr ");
    if !has_prefix_exec(line, &pre) {
        return None;
    }
    let rest = slice_chars(line, pre.len(), line.len());
    assert(rest@ =~= line@.skip(pre@.len() as int));
    let sep = chars_of(" -- ");
    match find_from_exec(&rest, &sep, 0) {
        None => None,
        Some(pos) => {
            let tail = slice_chars(&rest, pos + sep.len(), rest.len());
            assert(tail@ =~= rest@.skip(pos + sep@.len()));
            let t = trim_exec(&tail);
            match split_once_exec(&t, ' ') {
                None => None,
                Some((name, expansion)) => {
                    if name.len() == 0 {
                        None
                    } else {
                        let e = unquote_chars(&trim_exec(&expansion));
                        Some((string_of(&name), string_of(&e)))
                    }
                },
            }
        },
    }
}

/// Parse an `abbr --show` line `abbr -a [flags] -- name expansion`;
/// `None` without the ` -- ` form or without both a name and an expansion.
pub fn parse_abbr_line(line: &str) -> (r: Option<(String, String)>)
    ensures
        match (r, abbr_spec(line@)) {
            (Some(x), Some(y)) => x.0@ == y.0 && x.1@ == y.1,
            (None, None) => true,
            _ => false,
        },
{
    abbr_chars(&chars_of(line))
}

fn alias_chars(line: &Vec<char>) -> (r: Option<(String, String)>)
    ensures
        match (r, alias_spec(line@)) {
            (Some(x), Some(y)) => x.0@ == y.0 && x.1@ == y.1,
            (None, None) => true,
            _ => false,
        },
{
    let pre = chars_of("alias ");
    if !has_prefix_exec(line, &pre) {
        return None;
    }
    let rest = slice_chars(line, pre.len(), line.len());
    assert(rest@ =~= line@.skip(pre@.len() as int));
    match split_once_exec(&rest, ' ') {
        None => None,
        Some((name, body)) => {
            if name.len() == 0 {
                None
            } else {
                let b = unquote_chars(&trim_exec(&body));
                Some((string_of(&name), string_of(&b)))
            }
        },
    }
}

/// Parse an `alias` listing line `alias name body`.
pub fn parse_alias_line(line: &str) -> (r: Option<(String, String)>)
    ensures
        match (r, alias_spec(line@)) {
            (Some(x), Some(y)) => x.0@ == y.0 && x.1@ == y.1,
            (None, None) => true,
            _ => false,
        },
{
    alias_chars(&chars_of(line))
}

fn is_word(v: &Vec<char>, w: &str) -> (b: bool)
    ensures
        b == (v@ == w@),
{
    same_chars_pub(v, &chars_of(w))
}

fn is_fish_keyword(w: &Vec<char>) -> (b: bool)
    ensures
        b == fish_keyword(w@),
{
    is_word(w, "and") || is_word(w, "begin") || is_word(w, "break") || is_word(w, "case")
        || is_word(w, "continue") || is_word(w, "else") || is_word(w, "end") || is_word(w, "for")
        || is_word(w, "function") || is_word(w, "if") || is_word(w, "not") || is_word(w, "or")
        || is_word(w, "return") || is_word(w, "switch") || is_word(w, "while")
}

fn apply_line(table: &mut CommandTable, line: &Vec<char>)
    ensures
        final(table)@ == fish_line(old(table)@, line@),
{
    let pre = chars_of("FLYT\t");
    if !has_prefix_exec(line, &pre) {
        return;
    }
    let rest = slice_chars(line, pre.len(), line.len());
    assert(rest@ =~= line@.skip(pre@.len() as int));
    match split_once_exec(&rest, '\t') {
        None => {},
        Some((kind, value)) => {
            if value.len() == 0 {
                return;
            }
            if is_word(&kind, "builtin") {
                if is_fish_keyword(&value) {
                    table.add_keyword(string_of(&value));
                } else {
                    table.add_builtin(string_of(&value));
                }
            } else if is_word(&kind, "function") {
                table.add_function(string_of(&value));
            } else if is_word(&kind, "rawabbr") || is_word(&kind, "rawalias") {
                let parsed = if is_word(&kind, "rawabbr") {
                    abbr_chars(&value)
                } else {
                    alias_chars(&value)
                };
                match parsed {
                    Some((n, e)) => table.add_alias(n, e),
                    None => {},
                }
            }
        },
    }
}

/// Parse the `FLYT`-prefixed dump lines of `out` into a command table,
/// ignoring other lines, then add the executables `path_commands` (name,
/// full path) found on `$PATH`.
pub fn parse_command_table(out: &str, path_commands: &Vec<(String, String)>) -> (t: CommandTable)
    ensures
        t@ == with_paths(fish_lines(lines(out@)), path_commands@),
{
    let v = chars_of(out);
    let ls = lines_exec(&v);
    let ghost lv = ls@.map_values(|l: Vec<char>| l@);
    let mut table = CommandTable::new();
    let mut i: usize = 0;
    while i < ls.len()
        invariant
            lv == ls@.map_values(|l: Vec<char>| l@),
            lv == lines(out@),
            i <= ls.len(),
            table@ == fish_lines(lv.take(i as int)),
        decreases ls.len() - i,
    {
        proof {
            assert(lv.take(i + 1).drop_last() =~= lv.take(i as int));
            assert(lv.take(i + 1).last() == ls@[i as int]@);
        }
        apply_line(&mut table, &ls[i]);
        i = i + 1;
    }
    proof {
        assert(lv.take(ls.len() as int) =~= lv);
    }
    let ghost base = table@;
    let mut j: usize = 0;
    while j < path_commands.len()
        invariant
            j <= path_commands.len(),
            table@ == with_paths(base, path_commands@.take(j as int)),
        decreases path_commands.len() - j,
    {
        proof {
            assert(path_commands@.take(j + 1).drop_last() =~= path_commands@.take(j as int));
            assert(path_commands@.take(j + 1).last() == path_commands@[j as int]);
        }
        let name = path_commands[j].0.clone();
        let path = path_commands[j].1.clone();
        table.add_command(name, path);
        j = j + 1;
    }
    proof {
        assert(path_commands@.take(path_commands.len() as int) =~= path_commands@);
    }
    table
}

/// The fish backend's view of the shell's command vocabulary.
pub struct FishBackend {
    pub command_table: CommandTable,
}

impl FishBackend {
    /// The backend over a command table read from fish.
    pub fn new(command_table: CommandTable) -> (b: Self)
        ensures
            b.command_table@ == command_table@,
    {
        FishBackend { command_table }
    }

    /// The command table.
    pub fn table(&self) -> (t: &CommandTable)
        ensures
            t@ == self.command_table@,
    {
        &self.command_table
    }

    /// The expansion of alias `cmd`, unless empty.
    pub fn find_alias(&self, cmd: &str) -> (r: Option<String>)
        ensures
            match r {
                Some(v) => self.command_table@.aliases.contains_key(cmd@)
                    && self.command_table@.aliases[cmd@] == v@ && v@.len() > 0,
                None => !self.command_table@.aliases.contains_key(cmd@)
                    || self.command_table@.aliases[cmd@].len() == 0,
            },
    {
        self.command_table.find_alias(cmd)
    }

    /// What `cmd` names (see `fish_info`).
    pub fn command_info(&self, cmd: &str) -> (r: CommandWordInfo)
        ensures
            r@ == fish_info(self.command_table@, cmd@),
    {
        let t = &self.command_table;
        match t.alias(cmd) {
            Some(e) => {
                return CommandWordInfo::Alias { command: cmd.to_owned(), expansion: e };
            },
            None => {},
        }
        if t.is_function(cmd) {
            return CommandWordInfo::Function { command: cmd.to_owned(), source_file: None, line: None };
        }
        if t.is_keyword(cmd) {
            return CommandWordInfo::Keyword { command: cmd.to_owned(), usage: None };
        }
        if t.is_builtin(cmd) {
            return CommandWordInfo::Builtin { command: cmd.to_owned(), usage: None };
        }
        match t.command_path(cmd) {
            Some(p) => CommandWordInfo::File { command: cmd.to_owned(), path: p },
            None => CommandWordInfo::Unknown { command: cmd.to_owned() },
        }
    }

    /// Every command word, in the order it was read.
    pub fn possible_command_words(&self) -> (r: Vec<CommandWordInfo>)
        ensures
            r@.map_values(|x: CommandWordInfo| x@) == self.command_table@.ordered,
    {
        self.command_table.possible_command_words()
    }
}

/// The value of `name` in the environment `env` (the first entry with
/// that name).
pub open spec fn env_lookup(env: Seq<(Seq<char>, Seq<char>)>, name: Seq<char>) -> Option<Seq<char>>
    decreases env.len(),
{
    if env.len() == 0 {
        None
    } else if env[0].0 == name {
        Some(env[0].1)
    } else {
        env_lookup(env.drop_first(), name)
    }
}

/// The view of an environment.
pub open spec fn env_view(env: Seq<(String, String)>) -> Seq<(Seq<char>, Seq<char>)> {
    env.map_values(|e: (String, String)| (e.0@, e.1@))
}

/// Characters that may follow `$` in an unbraced variable name.
pub open spec fn name_char_p() -> spec_fn(char) -> bool {
    |c: char| crate::shell_tokens::is_name_char(c)
}

/// The variable named right after position `j` of `s` (just past a `$`),
/// and how many characters its reference takes: `{name}` when a `}`
/// closes it (none, taking nothing, when none does), else the longest run
/// of ASCII letters, digits and underscores.
pub open spec fn var_ref(s: Seq<char>, j: int) -> (Seq<char>, int) {
    if 0 <= j < s.len() && s[j] == '{' {
        match find_from(s, seq!['}'], j + 1) {
            Some(e) => (s.subrange(j + 1, e), e - j + 1),
            None => (Seq::empty(), 0),
        }
    } else {
        let e = run_fwd(s, j, name_char_p());
        (s.subrange(j, e), e - j)
    }
}

/// `s` from position `i` on with each `$NAME` or `${NAME}` whose name is
/// a valid variable name set in `env` replaced by its value; other `$`
/// signs are kept.
pub open spec fn expand_vars(s: Seq<char>, i: int, env: Seq<(Seq<char>, Seq<char>)>) -> Seq<char>
    decreases s.len() - i,
    via expand_vars_decreases
{
    if i < 0 || i >= s.len() {
        Seq::empty()
    } else if s[i] != '$' {
        seq![s[i]] + expand_vars(s, i + 1, env)
    } else {
        let (name, consumed) = var_ref(s, i + 1);
        if name.len() == 0 || !crate::shell::is_var_name(name) || env_lookup(env, name) is None {
            seq!['$'] + expand_vars(s, i + 1, env)
        } else {
            env_lookup(env, name).unwrap() + expand_vars(s, i + 1 + consumed, env)
        }
    }
}

#[via_fn]
proof fn expand_vars_decreases(s: Seq<char>, i: int, env: Seq<(Seq<char>, Seq<char>)>) {
    if 0 <= i < s.len() && s[i] == '$' {
        lemma_var_ref(s, i + 1);
    }
}

/// A variable reference after `j` lies within `s`.
proof fn lemma_var_ref(s: Seq<char>, j: int)
    requires
        0 <= j <= s.len(),
    ensures
        0 <= var_ref(s, j).1,
        j + var_ref(s, j).1 <= s.len(),
{
    if 0 <= j < s.len() && s[j] == '{' {
        if find_from(s, seq!['}'], j + 1) is Some {
            crate::text_ops::lemma_find_from_occurs(s, seq!['}'], j + 1);
        }
    } else {
        crate::text_buffer::lemma_run_fwd_ge(s, j, name_char_p());
    }
}

/// `s` with a leading `~` standing for the home directory `home`, when
/// that is known: `~` alone or followed by `/`.
pub open spec fn expand_tilde(s: Seq<char>, home: Seq<char>) -> Seq<char> {
    if home.len() == 0 {
        s
    } else if s == seq!['~'] {
        home
    } else if s.len() >= 2 && s[0] == '~' && s[1] == '/' {
        home + s.skip(1)
    } else {
        s
    }
}

/// What `expand_words` makes of `s` in the environment `env`: the home
/// directory (from `HOME`) for a leading `~`, then the variables.
pub open spec fn expand_words_spec(s: Seq<char>, env: Seq<(Seq<char>, Seq<char>)>) -> Seq<char> {
    let home = match env_lookup(env, "HOME"@) {
        Some(h) => h,
        None => Seq::empty(),
    };
    expand_vars(expand_tilde(s, home), 0, env)
}

/// The value of `name` in `env`.
fn env_lookup_exec(env: &Vec<(String, String)>, name: &Vec<char>) -> (r: Option<String>)
    ensures
        match (r, env_lookup(env_view(env@), name@)) {
            (Some(x), Some(y)) => x@ == y,
            (None, None) => true,
            _ => false,
        },
{
    let ghost ev = env_view(env@);
    let mut i: usize = 0;
    assert(ev.skip(0) =~= ev);
    while i < env.len()
        invariant
            i <= env.len(),
            ev == env_view(env@),
            env_lookup(ev.skip(i as int), name@) == env_lookup(ev, name@),
        decreases env.len() - i,
    {
        assert(ev.skip(i as int)[0] == (env@[i as int].0@, env@[i as int].1@));
        assert(ev.skip(i as int).drop_first() =~= ev.skip(i + 1));
        if same_chars_pub(&chars_of(env[i].0.as_str()), name) {
            return Some(env[i].1.clone());
        }
        i = i + 1;
    }
    assert(ev.skip(i as int) =~= Seq::<(Seq<char>, Seq<char>)>::empty());
    None
}

/// Expand a leading `~` (the user's own home directory) and `$VAR` or
/// `${VAR}` against the environment `env` (see `expand_words_spec`); no
/// `~user`, globs or command substitution.
pub fn expand_words(s: &str, env: &Vec<(String, String)>) -> (r: String)
    ensures
        r@ == expand_words_spec(s@, env_view(env@)),
{
    let ghost ev = env_view(env@);
    let home = match env_lookup_exec(env, &chars_of("HOME")) {
        Some(h) => chars_of(h.as_str()),
        None => Vec::new(),
    };
    let v0 = chars_of(s);
    let v: Vec<char> = if home.len() == 0 {
        v0
    } else if v0.len() == 1 && v0[0] == '~' {
        assert(v0@ =~= seq!['~']);
        home
    } else if v0.len() >= 2 && v0[0] == '~' && v0[1] == '/' {
        let mut t = home.clone();
        append_chars(&mut t, &slice_chars(&v0, 1, v0.len()));
        assert(v0@.subrange(1, v0.len() as int) =~= v0@.skip(1));
        t
    } else {
        proof {
            if v0@ == seq!['~'] {
                assert(v0@.len() == 1 && v0@[0] == '~');
            }
        }
        v0
    };
    let ghost t = v@;
    let mut out: Vec<char> = Vec::new();
    let mut i: usize = 0;
    while i < v.len()
        invariant
            i <= v.len(),
            t == v@,
            ev == env_view(env@),
            out@ + expand_vars(t, i as int, ev) == expand_vars(t, 0, ev),
        decreases v.len() - i,
    {
        let c = v[i];
        if c != '$' {
            out.push(c);
            assert(out@ + expand_vars(t, i + 1, ev) =~= expand_vars(t, 0, ev));
            i = i + 1;
            continue;
        }
        let j = i + 1;
        proof {
            lemma_var_ref(t, j as int);
        }
        let mut named: Option<(Vec<char>, usize)> = None;
        if j < v.len() && v[j] == '{' {
            let mut close: Vec<char> = Vec::new();
            close.push('}');
            assert(close@ =~= seq!['}']);
            match find_from_exec(&v, &close, j + 1) {
                Some(e) => {
                    named = Some((slice_chars(&v, j + 1, e), e - j + 1));
                },
                None => {
                    named = Some((Vec::new(), 0));
                },
            }
        } else {
            let mut e = j;
            while e < v.len() && crate::shell::is_name_char_exec(v[e])
                invariant
                    j <= e <= v.len(),
                    t == v@,
                    run_fwd(t, e as int, name_char_p()) == run_fwd(t, j as int, name_char_p()),
                decreases v.len() - e,
            {
                e = e + 1;
            }
            named = Some((slice_chars(&v, j, e), e - j));
        }
        let (name, consumed) = match named {
            Some(x) => x,
            None => (Vec::new(), 0),
        };
        assert(name@ == var_ref(t, j as int).0 && consumed as int == var_ref(t, j as int).1);
        let value = if name.len() == 0 {
            None
        } else {
            match crate::shell::shell_var_name(string_of(&name).as_str()) {
                None => None,
                Some(_) => env_lookup_exec(env, &name),
            }
        };
        match value {
            None => {
                out.push('$');
                assert(out@ + expand_vars(t, i + 1, ev) =~= expand_vars(t, 0, ev));
                i = i + 1;
            },
            Some(val) => {
                append_chars(&mut out, &chars_of(val.as_str()));
                assert(out@ + expand_vars(t, i + 1 + consumed, ev) =~= expand_vars(t, 0, ev));
                i = i + 1 + consumed;
            },
        }
    }
    proof {
        assert(out@ + Seq::<char>::empty() =~= out@);
    }
    string_of(&out)
}

/// Text with no `$` comes out of variable expansion unchanged.
proof fn lemma_expand_vars_plain(s: Seq<char>, i: int, env: Seq<(Seq<char>, Seq<char>)>)
    requires
        0 <= i <= s.len(),
        !s.contains('$'),
    ensures
        expand_vars(s, i, env) == s.skip(i),
    decreases s.len() - i,
{
    if i < s.len() {
        lemma_expand_vars_plain(s, i + 1, env);
        assert(s.skip(i) =~= seq![s[i]] + s.skip(i + 1));
    } else {
        assert(s.skip(i) =~= Seq::<char>::empty());
    }
}

/// A word without `$` and without a leading `~` is left as it is.
pub proof fn law_expand_words_plain(s: Seq<char>, env: Seq<(Seq<char>, Seq<char>)>)
    requires
        !s.contains('$'),
        s.len() == 0 || s[0] != '~',
    ensures
        expand_words_spec(s, env) == s,
{
    lemma_expand_vars_plain(s, 0, env);
    assert(s.skip(0) =~= s);
}

/// Stepping over characters that all satisfy `p` reaches the end.
proof fn lemma_run_to_end(s: Seq<char>, j: int, p: spec_fn(char) -> bool)
    requires
        0 <= j <= s.len(),
        forall|k: int| j <= k < s.len() ==> p(#[trigger] s[k]),
    ensures
        run_fwd(s, j, p) == s.len(),
    decreases s.len() - j,
{
    if j < s.len() {
        lemma_run_to_end(s, j + 1, p);
    }
}

/// `$NAME` alone, for a variable name set in the environment, expands to
/// the variable's value.
pub proof fn law_expand_words_variable(name: Seq<char>, env: Seq<(Seq<char>, Seq<char>)>)
    requires
        crate::shell::is_var_name(name),
        env_lookup(env, name) is Some,
    ensures
        expand_words_spec(seq!['$'] + name, env) == env_lookup(env, name).unwrap(),
{
    let s = seq!['$'] + name;
    let home = match env_lookup(env, "HOME"@) {
        Some(h) => h,
        None => Seq::empty(),
    };
    assert(expand_tilde(s, home) == s);
    assert(s[1] == name[0]);
    assert(crate::shell_tokens::is_name_char(name[0]));
    assert(s[1] != '{');
    lemma_run_to_end(s, 1, name_char_p());
    assert(s.subrange(1, s.len() as int) =~= name);
    assert(expand_vars(s, s.len() as int, env) =~= Seq::<char>::empty());
    assert(env_lookup(env, name).unwrap() + Seq::<char>::empty() =~= env_lookup(env, name).unwrap());
}

} // verus!
