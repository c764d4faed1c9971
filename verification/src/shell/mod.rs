//! Host-shell data shared by the backends: what a command word is, the
//! table of a shell's command vocabulary, history records, and the check
//! that a variable name is safe to put into a helper script.

pub mod fish;
pub mod zsh;

use crate::unicode::{chars_of, string_of};
use vstd::prelude::*;

verus! {

/// What a command word names.
#[derive(Debug, Clone, PartialEq, Eq)]
pub enum CommandWordInfo {
    Alias { command: String, expansion: String },
    Function { command: String, source_file: Option<String>, line: Option<usize> },
    Builtin { command: String, usage: Option<String> },
    Keyword { command: String, usage: Option<String> },
    File { command: String, path: String },
    Unknown { command: String },
}

/// A `CommandWordInfo` as plain values.
pub enum InfoView {
    Alias(Seq<char>, Seq<char>),
    Function(Seq<char>, Option<Seq<char>>, Option<usize>),
    Builtin(Seq<char>, Option<Seq<char>>),
    Keyword(Seq<char>, Option<Seq<char>>),
    File(Seq<char>, Seq<char>),
    Unknown(Seq<char>),
}

/// An optional string as an optional sequence.
pub open spec fn opt_chars(o: Option<String>) -> Option<Seq<char>> {
    match o {
        Some(s) => Some(s@),
        None => None,
    }
}

impl View for CommandWordInfo {
    type V = InfoView;

    open spec fn view(&self) -> InfoView {
        match self {
            CommandWordInfo::Alias { command, expansion } => InfoView::Alias(command@, expansion@),
            CommandWordInfo::Function { command, source_file, line } => InfoView::Function(
                command@,
                opt_chars(*source_file),
                *line,
            ),
            CommandWordInfo::Builtin { command, usage } => InfoView::Builtin(command@, opt_chars(*usage)),
            CommandWordInfo::Keyword { command, usage } => InfoView::Keyword(command@, opt_chars(*usage)),
            CommandWordInfo::File { command, path } => InfoView::File(command@, path@),
            CommandWordInfo::Unknown { command } => InfoView::Unknown(command@),
        }
    }
}

/// The map that inserting the pairs in order builds (a later pair wins).
pub open spec fn pair_map(p: Seq<(String, String)>) -> Map<Seq<char>, Seq<char>>
    decreases p.len(),
{
    if p.len() == 0 {
        Map::empty()
    } else {
        pair_map(p.drop_last()).insert(p.last().0@, p.last().1@)
    }
}

/// The set of the names.
pub open spec fn name_set(v: Seq<String>) -> Set<Seq<char>>
    decreases v.len(),
{
    if v.len() == 0 {
        Set::empty()
    } else {
        name_set(v.drop_last()).insert(v.last()@)
    }
}

/// A shell's command vocabulary: aliases (name to expansion), functions,
/// builtins, keywords, executables (name to path), and every entry in the
/// order it was read.
pub struct CommandTable {
    pub aliases: Vec<(String, String)>,
    pub functions: Vec<String>,
    pub builtins: Vec<String>,
    pub keywords: Vec<String>,
    pub commands: Vec<(String, String)>,
    pub ordered: Vec<CommandWordInfo>,
}

/// The content of a command table.
pub struct TableView {
    pub aliases: Map<Seq<char>, Seq<char>>,
    pub functions: Set<Seq<char>>,
    pub builtins: Set<Seq<char>>,
    pub keywords: Set<Seq<char>>,
    pub commands: Map<Seq<char>, Seq<char>>,
    pub ordered: Seq<InfoView>,
}

/// The empty table.
pub open spec fn empty_table() -> TableView {
    TableView {
        aliases: Map::empty(),
        functions: Set::empty(),
        builtins: Set::empty(),
        keywords: Set::empty(),
        commands: Map::empty(),
        ordered: Seq::empty(),
    }
}

impl View for CommandTable {
    type V = TableView;

    open spec fn view(&self) -> TableView {
        TableView {
            aliases: pair_map(self.aliases@),
            functions: name_set(self.functions@),
            builtins: name_set(self.builtins@),
            keywords: name_set(self.keywords@),
            commands: pair_map(self.commands@),
            ordered: self.ordered@.map_values(|x: CommandWordInfo| x@),
        }
    }
}

fn find_pair(p: &Vec<(String, String)>, name: &str) -> (r: Option<String>)
    ensures
        match r {
            Some(v) => pair_map(p@).contains_key(name@) && pair_map(p@)[name@] == v@,
            None => !pair_map(p@).contains_key(name@),
        },
{
    let key = chars_of(name);
    let mut k = p.len();
    proof {
        assert(p@.take(k as int) =~= p@);
    }
    while k > 0
        invariant
            k <= p.len(),
            key@ == name@,
            pair_map(p@).contains_key(name@) == pair_map(p@.take(k as int)).contains_key(name@),
            pair_map(p@).contains_key(name@) ==> pair_map(p@)[name@] == pair_map(p@.take(k as int))[name@],
        decreases k,
    {
        let ghost t = p@.take(k as int);
        assert(t.drop_last() =~= p@.take(k - 1));
        assert(t.last() == p@[k - 1]);
        let kv = chars_of(p[k - 1].0.as_str());
        if crate::text_buffer::same_chars_pub(&kv, &key) {
            return Some(p[k - 1].1.clone());
        }
        k = k - 1;
    }
    None
}

fn has_name(v: &Vec<String>, name: &str) -> (r: bool)
    ensures
        r == name_set(v@).contains(name@),
{
    let key = chars_of(name);
    let mut k = v.len();
    proof {
        assert(v@.take(k as int) =~= v@);
    }
    while k > 0
        invariant
            k <= v.len(),
            key@ == name@,
            name_set(v@).contains(name@) == name_set(v@.take(k as int)).contains(name@),
        decreases k,
    {
        let ghost t = v@.take(k as int);
        assert(t.drop_last() =~= v@.take(k - 1));
        assert(t.last() == v@[k - 1]);
        let kv = chars_of(v[k - 1].as_str());
        if crate::text_buffer::same_chars_pub(&kv, &key) {
            return true;
        }
        k = k - 1;
    }
    false
}

impl CommandTable {
    /// An empty table.
    pub fn new() -> (t: Self)
        ensures
            t@ == empty_table(),
    {
        let t = CommandTable {
            aliases: Vec::new(),
            functions: Vec::new(),
            builtins: Vec::new(),
            keywords: Vec::new(),
            commands: Vec::new(),
            ordered: Vec::new(),
        };
        assert(t@.ordered =~= Seq::<InfoView>::empty());
        t
    }

    /// The expansion of alias `name`.
    pub fn alias(&self, name: &str) -> (r: Option<String>)
        ensures
            match r {
                Some(v) => self@.aliases.contains_key(name@) && self@.aliases[name@] == v@,
                None => !self@.aliases.contains_key(name@),
            },
    {
        find_pair(&self.aliases, name)
    }

    /// The path of executable `name`.
    pub fn command_path(&self, name: &str) -> (r: Option<String>)
        ensures
            match r {
                Some(v) => self@.commands.contains_key(name@) && self@.commands[name@] == v@,
                None => !self@.commands.contains_key(name@),
            },
    {
        find_pair(&self.commands, name)
    }

    /// Whether `name` is a function.
    pub fn is_function(&self, name: &str) -> (r: bool)
        ensures
            r == self@.functions.contains(name@),
    {
        has_name(&self.functions, name)
    }

    /// Whether `name` is a builtin.
    pub fn is_builtin(&self, name: &str) -> (r: bool)
        ensures
            r == self@.builtins.contains(name@),
    {
        has_name(&self.builtins, name)
    }

    /// Whether `name` is a keyword.
    pub fn is_keyword(&self, name: &str) -> (r: bool)
        ensures
            r == self@.keywords.contains(name@),
    {
        has_name(&self.keywords, name)
    }

    /// The alias expansion of `cmd`, unless empty.
    pub fn find_alias(&self, cmd: &str) -> (r: Option<String>)
        ensures
            match r {
                Some(v) => self@.aliases.contains_key(cmd@) && self@.aliases[cmd@] == v@ && v@.len() > 0,
                None => !self@.aliases.contains_key(cmd@) || self@.aliases[cmd@].len() == 0,
            },
    {
        match self.alias(cmd) {
            Some(e) => {
                if e.as_str().is_empty() {
                    None
                } else {
                    Some(e)
                }
            },
            None => None,
        }
    }

    /// Every entry in the order it was read.
    pub fn possible_command_words(&self) -> (r: Vec<CommandWordInfo>)
        ensures
            r@.map_values(|x: CommandWordInfo| x@) == self@.ordered,
    {
        let mut r: Vec<CommandWordInfo> = Vec::new();
        let mut i: usize = 0;
        while i < self.ordered.len()
            invariant
                i <= self.ordered.len(),
                r@.map_values(|x: CommandWordInfo| x@) == self.ordered@.take(i as int).map_values(|x: CommandWordInfo| x@),
            decreases self.ordered.len() - i,
        {
            let ghost r0 = r@;
            let c = copy_info(&self.ordered[i]);
            r.push(c);
            proof {
                assert(r@ =~= r0.push(c));
                assert(r@.map_values(|x: CommandWordInfo| x@) =~= r0.map_values(|x: CommandWordInfo| x@).push(c@));
                assert(self.ordered@.take(i + 1) =~= self.ordered@.take(i as int).push(self.ordered@[i as int]));
                assert(r@.map_values(|x: CommandWordInfo| x@) =~= self.ordered@.take(i + 1).map_values(|x: CommandWordInfo| x@));
            }
            i = i + 1;
        }
        assert(self.ordered@.take(i as int) =~= self.ordered@);
        r
    }

    pub(crate) fn add_alias(&mut self, name: String, expansion: String)
        ensures
            final(self)@ == (TableView {
                aliases: old(self)@.aliases.insert(name@, expansion@),
                ordered: old(self)@.ordered.push(InfoView::Alias(name@, expansion@)),
                ..old(self)@
            }),
    {
        let info = CommandWordInfo::Alias { command: name.clone(), expansion: expansion.clone() };
        let ghost a0 = self.aliases@;
        let ghost o0 = self.ordered@;
        self.aliases.push((name, expansion));
        self.ordered.push(info);
        proof {
            assert(self.aliases@.drop_last() =~= a0);
            assert(self.ordered@.map_values(|x: CommandWordInfo| x@) =~= o0.map_values(|x: CommandWordInfo| x@).push(info@));
        }
    }

    pub(crate) fn add_command(&mut self, name: String, path: String)
        ensures
            final(self)@ == (TableView {
                commands: old(self)@.commands.insert(name@, path@),
                ordered: old(self)@.ordered.push(InfoView::File(name@, path@)),
                ..old(self)@
            }),
    {
        let info = CommandWordInfo::File { command: name.clone(), path: path.clone() };
        let ghost a0 = self.commands@;
        let ghost o0 = self.ordered@;
        self.commands.push((name, path));
        self.ordered.push(info);
        proof {
            assert(self.commands@.drop_last() =~= a0);
            assert(self.ordered@.map_values(|x: CommandWordInfo| x@) =~= o0.map_values(|x: CommandWordInfo| x@).push(info@));
        }
    }

    pub(crate) fn add_function(&mut self, name: String)
        ensures
            final(self)@ == (TableView {
                functions: old(self)@.functions.insert(name@),
                ordered: old(self)@.ordered.push(InfoView::Function(name@, None, None)),
                ..old(self)@
            }),
    {
        let info = CommandWordInfo::Function { command: name.clone(), source_file: None, line: None };
        let ghost a0 = self.functions@;
        let ghost o0 = self.ordered@;
        self.functions.push(name);
        self.ordered.push(info);
        proof {
            assert(self.functions@.drop_last() =~= a0);
            assert(self.ordered@.map_values(|x: CommandWordInfo| x@) =~= o0.map_values(|x: CommandWordInfo| x@).push(info@));
        }
    }

    pub(crate) fn add_builtin(&mut self, name: String)
        ensures
            final(self)@ == (TableView {
                builtins: old(self)@.builtins.insert(name@),
                ordered: old(self)@.ordered.push(InfoView::Builtin(name@, None)),
                ..old(self)@
            }),
    {
        let info = CommandWordInfo::Builtin { command: name.clone(), usage: None };
        let ghost a0 = self.builtins@;
        let ghost o0 = self.ordered@;
        self.builtins.push(name);
        self.ordered.push(info);
        proof {
            assert(self.builtins@.drop_last() =~= a0);
            assert(self.ordered@.map_values(|x: CommandWordInfo| x@) =~= o0.map_values(|x: CommandWordInfo| x@).push(info@));
        }
    }

    pub(crate) fn add_keyword(&mut self, name: String)
        ensures
            final(self)@ == (TableView {
                keywords: old(self)@.keywords.insert(name@),
                ordered: old(self)@.ordered.push(InfoView::Keyword(name@, None)),
                ..old(self)@
            }),
    {
        let info = CommandWordInfo::Keyword { command: name.clone(), usage: None };
        let ghost a0 = self.keywords@;
        let ghost o0 = self.ordered@;
        self.keywords.push(name);
        self.ordered.push(info);
        proof {
            assert(self.keywords@.drop_last() =~= a0);
            assert(self.ordered@.map_values(|x: CommandWordInfo| x@) =~= o0.map_values(|x: CommandWordInfo| x@).push(info@));
        }
    }
}

fn copy_string(s: &String) -> (r: String)
    ensures
        r@ == s@,
{
    s.clone()
}

fn copy_opt(s: &Option<String>) -> (r: Option<String>)
    ensures
        opt_chars(r) == opt_chars(*s),
{
    match s {
        Some(x) => Some(copy_string(x)),
        None => None,
    }
}

fn copy_info(x: &CommandWordInfo) -> (r: CommandWordInfo)
    ensures
        r@ == x@,
{
    match x {
        CommandWordInfo::Alias { command, expansion } => CommandWordInfo::Alias {
            command: copy_string(command),
            expansion: copy_string(expansion),
        },
        CommandWordInfo::Function { command, source_file, line } => CommandWordInfo::Function {
            command: copy_string(command),
            source_file: copy_opt(source_file),
            line: *line,
        },
        CommandWordInfo::Builtin { command, usage } => CommandWordInfo::Builtin {
            command: copy_string(command),
            usage: copy_opt(usage),
        },
        CommandWordInfo::Keyword { command, usage } => CommandWordInfo::Keyword {
            command: copy_string(command),
            usage: copy_opt(usage),
        },
        CommandWordInfo::File { command, path } => CommandWordInfo::File {
            command: copy_string(command),
            path: copy_string(path),
        },
        CommandWordInfo::Unknown { command } => CommandWordInfo::Unknown { command: copy_string(command) },
    }
}

/// `name` is non-empty and made of ASCII letters, digits and underscores.
pub open spec fn is_var_name(name: Seq<char>) -> bool {
    name.len() > 0 && forall|k: int| 0 <= k < name.len() ==> crate::shell_tokens::is_name_char(#[trigger] name[k])
}

/// `Some(name)` when `name` is a plain identifier, safe to put into a
/// helper-shell script; `None` otherwise.
pub fn shell_var_name(name: &str) -> (r: Option<String>)
    ensures
        match r {
            Some(x) => is_var_name(name@) && x@ == name@,
            None => !is_var_name(name@),
        },
{
    let v = chars_of(name);
    if v.len() == 0 {
        return None;
    }
    let mut i: usize = 0;
    while i < v.len()
        invariant
            v@ == name@,
            i <= v.len(),
            forall|k: int| 0 <= k < i ==> crate::shell_tokens::is_name_char(#[trigger] v@[k]),
        decreases v.len() - i,
    {
        let u = v[i] as u32;
        if !((0x30 <= u && u <= 0x39) || (0x41 <= u && u <= 0x5A) || (0x61 <= u && u <= 0x7A) || u == 0x5F) {
            assert(!crate::shell_tokens::is_name_char(v@[i as int]));
            return None;
        }
        i = i + 1;
    }
    Some(name.to_owned())
}

/// Whether `c` is an ASCII letter, digit or underscore.
pub fn is_name_char_exec(c: char) -> (b: bool)
    ensures
        b == crate::shell_tokens::is_name_char(c),
{
    let u = c as u32;
    (0x30 <= u && u <= 0x39) || (0x41 <= u && u <= 0x5A) || (0x61 <= u && u <= 0x7A) || u == 0x5F
}

/// The time of a bash history entry written in its timestamp line: the
/// seconds after any leading `#` signs and surrounding whitespace.
pub open spec fn history_timestamp(ts: Seq<char>) -> Option<nat> {
    let k = crate::text_buffer::run_fwd(ts, 0, crate::text_ops::is_char_p('#'));
    crate::text_ops::uint_text(crate::text_ops::trim(ts.skip(k)), u64::MAX as nat)
}

/// Read the time of a bash history entry from its timestamp line (see
/// `history_timestamp`); `None` when it holds no count of seconds.
pub fn parse_history_timestamp(ts: &str) -> (r: Option<u64>)
    ensures
        match history_timestamp(ts@) {
            Some(n) => r == Some(n as u64),
            None => r is None,
        },
{
    let v = chars_of(ts);
    let mut k: usize = 0;
    while k < v.len() && v[k] == '#'
        invariant
            k <= v.len(),
            crate::text_buffer::run_fwd(v@, k as int, crate::text_ops::is_char_p('#'))
                == crate::text_buffer::run_fwd(v@, 0, crate::text_ops::is_char_p('#')),
        decreases v.len() - k,
    {
        k = k + 1;
    }
    let rest = crate::text_ops::slice_chars(&v, k, v.len());
    assert(rest@ =~= v@.skip(k as int));
    let t = crate::text_ops::trim_exec(&rest);
    crate::text_ops::parse_uint(&t, u64::MAX)
}

/// A variable prefix without one leading `$`.
pub open spec fn bare_prefix(p: Seq<char>) -> Seq<char> {
    if p.len() > 0 && p[0] == '$' {
        p.drop_first()
    } else {
        p
    }
}

/// The names among `ns` that start with `bare`, in order.
pub open spec fn names_with_prefix(ns: Seq<Seq<char>>, bare: Seq<char>) -> Seq<Seq<char>>
    decreases ns.len(),
{
    if ns.len() == 0 {
        ns
    } else {
        let rest = names_with_prefix(ns.drop_last(), bare);
        if crate::text_ops::has_prefix(ns.last(), bare) {
            rest.push(ns.last())
        } else {
            rest
        }
    }
}

/// The non-empty names among `ns`, in order.
pub open spec fn nonempty_names(ns: Seq<Seq<char>>) -> Seq<Seq<char>>
    decreases ns.len(),
{
    if ns.len() == 0 {
        ns
    } else {
        let rest = nonempty_names(ns.drop_last());
        if ns.last().len() > 0 {
            rest.push(ns.last())
        } else {
            rest
        }
    }
}

/// Which names the shell's own listing offers for a variable prefix.
#[derive(Debug, Clone, Copy, PartialEq, Eq, Structural)]
pub enum VarListing {
    /// Every variable name (fish's `set --names`); those with the prefix count.
    AllNames,
    /// Names the shell already matched against the prefix (zsh); the
    /// non-empty ones count.
    Matched,
}

/// The variable names offered for completing `prefix`: those the shell
/// listed, or when it listed none, the environment's names with the prefix.
pub open spec fn offered_vars(
    listing: VarListing,
    prefix: Seq<char>,
    listed: Seq<Seq<char>>,
    env_names: Seq<Seq<char>>,
) -> Seq<Seq<char>> {
    let bare = bare_prefix(prefix);
    let found = match listing {
        VarListing::AllNames => names_with_prefix(listed, bare),
        VarListing::Matched => nonempty_names(listed),
    };
    if found.len() > 0 {
        found
    } else {
        names_with_prefix(env_names, bare)
    }
}

/// The names of `v` as character sequences.
pub open spec fn string_seqs(v: Seq<String>) -> Seq<Seq<char>> {
    v.map_values(|x: String| x@)
}

/// The variables offered for completing `prefix` (a `$` and a name
/// prefix): each offered name (see `offered_vars`) with a `$` in front,
/// sorted and without repeats; none when the prefix names nothing.
pub fn vars_with_prefix(listing: VarListing, prefix: &str, listed: &Vec<String>, env_names: &Vec<String>) -> (r: Vec<String>)
    ensures
        crate::hostnames::strictly_sorted(string_seqs(r@)),
        bare_prefix(prefix@).len() == 0 ==> r.len() == 0,
        bare_prefix(prefix@).len() > 0 ==> forall|y: Seq<char>| #[trigger] string_seqs(r@).contains(y) <==> exists|n: Seq<char>|
            offered_vars(listing, prefix@, string_seqs(listed@), string_seqs(env_names@)).contains(n) && y == seq!['$'] + n,
{
    let p = chars_of(prefix);
    let bare: Vec<char> = if p.len() > 0 && p[0] == '$' {
        crate::text_ops::slice_chars(&p, 1, p.len())
    } else {
        crate::text_ops::slice_chars(&p, 0, p.len())
    };
    proof {
        assert(p@.subrange(1, p@.len() as int) =~= p@.drop_first());
        assert(p@.subrange(0, p@.len() as int) =~= p@);
    }
    let mut out: Vec<Vec<char>> = Vec::new();
    if bare.len() == 0 {
        return Vec::new();
    }
    let ghost lv = string_seqs(listed@);
    let ghost ev = string_seqs(env_names@);
    let ghost want = offered_vars(listing, prefix@, lv, ev);
    let mut found: Vec<Vec<char>> = Vec::new();
    let mut i: usize = 0;
    while i < listed.len()
        invariant
            i <= listed.len(),
            lv == string_seqs(listed@),
            bare@ == bare_prefix(prefix@),
            found@.map_values(|v: Vec<char>| v@) == match listing {
                VarListing::AllNames => names_with_prefix(lv.take(i as int), bare@),
                VarListing::Matched => nonempty_names(lv.take(i as int)),
            },
        decreases listed.len() - i,
    {
        let c = chars_of(listed[i].as_str());
        assert(lv.take(i + 1).drop_last() =~= lv.take(i as int));
        assert(lv.take(i + 1).last() == c@);
        let keep = match listing {
            VarListing::AllNames => crate::text_ops::has_prefix_exec(&c, &bare),
            VarListing::Matched => c.len() > 0,
        };
        let ghost before = found@.map_values(|v: Vec<char>| v@);
        if keep {
            found.push(c);
            assert(found@.map_values(|v: Vec<char>| v@) =~= before.push(c@));
        }
        i = i + 1;
    }
    assert(lv.take(listed.len() as int) =~= lv);
    if found.len() == 0 {
        let mut j: usize = 0;
        while j < env_names.len()
            invariant
                j <= env_names.len(),
                ev == string_seqs(env_names@),
                bare@ == bare_prefix(prefix@),
                found@.map_values(|v: Vec<char>| v@) == names_with_prefix(ev.take(j as int), bare@),
            decreases env_names.len() - j,
        {
            let c = chars_of(env_names[j].as_str());
            assert(ev.take(j + 1).drop_last() =~= ev.take(j as int));
            assert(ev.take(j + 1).last() == c@);
            let ghost before = found@.map_values(|v: Vec<char>| v@);
            if crate::text_ops::has_prefix_exec(&c, &bare) {
                found.push(c);
                assert(found@.map_values(|v: Vec<char>| v@) =~= before.push(c@));
            }
            j = j + 1;
        }
        assert(ev.take(env_names.len() as int) =~= ev);
        assert(found@.len() == 0 ==> found@.map_values(|v: Vec<char>| v@) =~= Seq::<Seq<char>>::empty());
    }
    let ghost fv = found@.map_values(|v: Vec<char>| v@);
    assert(fv == want);
    let mut k: usize = 0;
    assert(out@.map_values(|v: Vec<char>| v@) =~= Seq::<Seq<char>>::empty());
    while k < found.len()
        invariant
            k <= found.len(),
            fv == found@.map_values(|v: Vec<char>| v@),
            crate::hostnames::strictly_sorted(crate::hostnames::vviews(out@)),
            forall|y: Seq<char>| #[trigger] crate::hostnames::vviews(out@).contains(y) <==> exists|n: Seq<char>|
                fv.take(k as int).contains(n) && y == seq!['$'] + n,
        decreases found.len() - k,
    {
        let mut d: Vec<char> = Vec::new();
        d.push('$');
        crate::unicode::append_chars(&mut d, &found[k]);
        assert(fv[k as int] == found@[k as int]@);
        assert(d@ =~= seq!['$'] + fv[k as int]);
        let ghost old_out = crate::hostnames::vviews(out@);
        crate::hostnames::insert_sorted(&mut out, d);
        assert forall|y: Seq<char>| #[trigger] crate::hostnames::vviews(out@).contains(y) <==> exists|n: Seq<char>|
            fv.take(k + 1).contains(n) && y == seq!['$'] + n by {
            let t1 = fv.take(k + 1);
            let t0 = fv.take(k as int);
            assert(t1 =~= t0.push(fv[k as int]));
            if crate::hostnames::vviews(out@).contains(y) {
                if old_out.contains(y) {
                    let n = choose|n: Seq<char>| t0.contains(n) && y == seq!['$'] + n;
                    let q = choose|q: int| 0 <= q < t0.len() && t0[q] == n;
                    assert(t1[q] == n);
                } else {
                    assert(t1[k as int] == fv[k as int]);
                }
            }
            if exists|n: Seq<char>| t1.contains(n) && y == seq!['$'] + n {
                let n = choose|n: Seq<char>| t1.contains(n) && y == seq!['$'] + n;
                let q = choose|q: int| 0 <= q < t1.len() && t1[q] == n;
                if q < k {
                    assert(t0[q] == n);
                }
            }
        }
        k = k + 1;
    }
    assert(fv.take(found.len() as int) =~= fv);
    let ghost ov = crate::hostnames::vviews(out@);
    let mut r: Vec<String> = Vec::new();
    let mut m: usize = 0;
    while m < out.len()
        invariant
            m <= out.len(),
            ov == crate::hostnames::vviews(out@),
            string_seqs(r@) == ov.take(m as int),
        decreases out.len() - m,
    {
        let ghost before = r@;
        let st = string_of(&out[m]);
        r.push(st);
        assert(ov[m as int] == out@[m as int]@);
        assert(string_seqs(r@) =~= string_seqs(before).push(st@));
        assert(string_seqs(r@) =~= ov.take(m + 1));
        m = m + 1;
    }
    assert(ov.take(out.len() as int) =~= ov);
    r
}

/// One entry of the host shell's command history.
#[derive(Debug, Clone, PartialEq, Eq)]
pub struct HistoryRecord {
    pub timestamp: Option<u64>,
    pub index: usize,
    pub command: String,
}

} // verus!
