//! The report of `flyline --version`: what it reads from the system files
//! and tool outputs, and the text it prints.

use crate::text_buffer::{run_back, run_fwd};
use crate::text_ops::{
    find_from, find_from_exec, has_prefix, has_prefix_exec, is_char_p, lines, lines_exec,
    slice_chars, trim, trim_exec,
};
use crate::unicode::{append_chars, chars_of, decimal, decimal_chars, string_of};
use vstd::prelude::*;

verus! {

/// `s` without all leading and trailing copies of `c`.
pub open spec fn trim_char(s: Seq<char>, c: char) -> Seq<char> {
    let a = run_fwd(s, 0, is_char_p(c));
    let b = run_back(s, s.len() as int, is_char_p(c));
    if a >= b {
        Seq::empty()
    } else {
        s.subrange(a, b)
    }
}

/// `v` without all leading and trailing copies of `c`.
fn trim_char_exec(v: &Vec<char>, c: char) -> (r: Vec<char>)
    ensures
        r@ == trim_char(v@, c),
{
    let mut a: usize = 0;
    while a < v.len() && v[a] == c
        invariant
            a <= v.len(),
            run_fwd(v@, a as int, is_char_p(c)) == run_fwd(v@, 0, is_char_p(c)),
        decreases v.len() - a,
    {
        a = a + 1;
    }
    let mut b: usize = v.len();
    while b > 0 && v[b - 1] == c
        invariant
            b <= v.len(),
            run_back(v@, b as int, is_char_p(c)) == run_back(v@, v.len() as int, is_char_p(c)),
        decreases b,
    {
        b = b - 1;
    }
    if a >= b {
        Vec::new()
    } else {
        slice_chars(v, a, b)
    }
}

/// The operating system's name in `/etc/os-release`: the value of the
/// first `PRETTY_NAME=` line, without enclosing double, then single,
/// quotes.
pub open spec fn pretty_name_in(ls: Seq<Seq<char>>) -> Option<Seq<char>>
    decreases ls.len(),
{
    if ls.len() == 0 {
        None
    } else if has_prefix(ls[0], "PRETTY_NAME="@) {
        Some(trim_char(trim_char(ls[0].skip("PRETTY_NAME="@.len() as int), '"'), '\''))
    } else {
        pretty_name_in(ls.drop_first())
    }
}

/// The operating system's name given in the text of `/etc/os-release`.
pub fn os_pretty_name(os_release: &str) -> (r: Option<String>)
    ensures
        match (r, pretty_name_in(lines(os_release@))) {
            (Some(x), Some(y)) => x@ == y,
            (None, None) => true,
            _ => false,
        },
{
    let ls = lines_exec(&chars_of(os_release));
    let ghost lv = ls@.map_values(|l: Vec<char>| l@);
    let key = chars_of("PRETTY_NAME=");
    let mut i: usize = 0;
    assert(lv.skip(0) =~= lv);
    while i < ls.len()
        invariant
            i <= ls.len(),
            lv == ls@.map_values(|l: Vec<char>| l@),
            lv == lines(os_release@),
            key@ == "PRETTY_NAME="@,
            pretty_name_in(lv.skip(i as int)) == pretty_name_in(lv),
        decreases ls.len() - i,
    {
        assert(lv.skip(i as int)[0] == ls@[i as int]@);
        assert(lv.skip(i as int).drop_first() =~= lv.skip(i + 1));
        if has_prefix_exec(&ls[i], &key) {
            let rest = slice_chars(&ls[i], key.len(), ls[i].len());
            assert(rest@ =~= ls@[i as int]@.skip(key@.len() as int));
            let name = trim_char_exec(&trim_char_exec(&rest, '"'), '\'');
            return Some(string_of(&name));
        }
        i = i + 1;
    }
    assert(lv.skip(i as int) =~= Seq::<Seq<char>>::empty());
    None
}

/// The first line of a text, trimmed, unless it is blank.
pub open spec fn first_line(text: Seq<char>) -> Option<Seq<char>> {
    let ls = lines(text);
    if ls.len() > 0 && trim(ls[0]).len() > 0 {
        Some(trim(ls[0]))
    } else {
        None
    }
}

fn first_line_exec(text: &str) -> (r: Option<Vec<char>>)
    ensures
        match (r, first_line(text@)) {
            (Some(x), Some(y)) => x@ == y,
            (None, None) => true,
            _ => false,
        },
{
    let ls = lines_exec(&chars_of(text));
    if ls.len() == 0 {
        return None;
    }
    assert(ls@.map_values(|l: Vec<char>| l@)[0] == ls@[0]@);
    let t = trim_exec(&ls[0]);
    if t.len() > 0 {
        Some(t)
    } else {
        None
    }
}

/// The version line that a tool printed: the first line of its standard
/// output, or else of its error output, when not blank.
pub fn first_output_line(stdout: &str, stderr: &str) -> (r: Option<String>)
    ensures
        match (r, first_line(stdout@), first_line(stderr@)) {
            (Some(x), Some(y), _) => x@ == y,
            (Some(x), None, Some(z)) => x@ == z,
            (None, None, None) => true,
            _ => false,
        },
{
    match first_line_exec(stdout) {
        Some(l) => Some(string_of(&l)),
        None => match first_line_exec(stderr) {
            Some(l) => Some(string_of(&l)),
            None => None,
        },
    }
}

/// The processor model in `/proc/cpuinfo`: after the `:` of the first line
/// starting with `model name`, `Processor` or `Hardware` that holds one and
/// has a non-blank value there.
pub open spec fn cpu_model_in(ls: Seq<Seq<char>>) -> Option<Seq<char>>
    decreases ls.len(),
{
    if ls.len() == 0 {
        None
    } else {
        let l = ls[0];
        let keyed = has_prefix(l, "model name"@) || has_prefix(l, "Processor"@) || has_prefix(l, "Hardware"@);
        match find_from(l, seq![':'], 0) {
            Some(p) => if keyed && trim(l.skip(p + 1)).len() > 0 {
                Some(trim(l.skip(p + 1)))
            } else {
                cpu_model_in(ls.drop_first())
            },
            None => cpu_model_in(ls.drop_first()),
        }
    }
}

/// The processor model given in the text of `/proc/cpuinfo`.
pub fn cpu_model(cpuinfo: &str) -> (r: Option<String>)
    ensures
        match (r, cpu_model_in(lines(cpuinfo@))) {
            (Some(x), Some(y)) => x@ == y,
            (None, None) => true,
            _ => false,
        },
{
    let ls = lines_exec(&chars_of(cpuinfo));
    let ghost lv = ls@.map_values(|l: Vec<char>| l@);
    let k1 = chars_of("model name");
    let k2 = chars_of("Processor");
    let k3 = chars_of("Hardware");
    let mut colon: Vec<char> = Vec::new();
    colon.push(':');
    assert(colon@ =~= seq![':']);
    let mut i: usize = 0;
    assert(lv.skip(0) =~= lv);
    while i < ls.len()
        invariant
            i <= ls.len(),
            lv == ls@.map_values(|l: Vec<char>| l@),
            lv == lines(cpuinfo@),
            k1@ == "model name"@,
            k2@ == "Processor"@,
            k3@ == "Hardware"@,
            colon@ == seq![':'],
            cpu_model_in(lv.skip(i as int)) == cpu_model_in(lv),
        decreases ls.len() - i,
    {
        assert(lv.skip(i as int)[0] == ls@[i as int]@);
        assert(lv.skip(i as int).drop_first() =~= lv.skip(i + 1));
        let l = &ls[i];
        let keyed = has_prefix_exec(l, &k1) || has_prefix_exec(l, &k2) || has_prefix_exec(l, &k3);
        match find_from_exec(l, &colon, 0) {
            Some(p) => {
                let rest = slice_chars(l, p + 1, l.len());
                assert(rest@ =~= l@.skip(p + 1));
                let model = trim_exec(&rest);
                if keyed && model.len() > 0 {
                    return Some(string_of(&model));
                }
            },
            None => {},
        }
        i = i + 1;
    }
    assert(lv.skip(i as int) =~= Seq::<Seq<char>>::empty());
    None
}

/// The processor line of the report: the model with the count of online
/// cores when that is known (positive), else the architecture.
pub open spec fn cpu_text(model: Option<Seq<char>>, cores: int, arch: Seq<char>) -> Seq<char> {
    match model {
        Some(m) => if cores > 0 {
            m + " ("@ + decimal(cores as nat) + " cores)"@
        } else {
            m
        },
        None => arch + " architecture"@,
    }
}

/// The processor line of the report (see `cpu_text`).
pub fn cpu_description(model: Option<&str>, cores: i64, arch: &str) -> (r: String)
    ensures
        r@ == cpu_text(
            match model {
                Some(m) => Some(m@),
                None => None,
            },
            cores as int,
            arch@,
        ),
{
    match model {
        Some(m) => {
            let mut v = chars_of(m);
            if cores > 0 {
                append_chars(&mut v, &chars_of(" ("));
                append_chars(&mut v, &decimal_chars(cores as u64));
                append_chars(&mut v, &chars_of(" cores)"));
            }
            string_of(&v)
        },
        None => {
            let mut v = chars_of(arch);
            append_chars(&mut v, &chars_of(" architecture"));
            string_of(&v)
        },
    }
}

/// The operating-system line of the report: `macOS` on Darwin, else the
/// pretty name when known, else the kernel's name; then the kernel's
/// release and machine.
pub open spec fn os_text(sysname: Seq<char>, release: Seq<char>, machine: Seq<char>, pretty: Option<Seq<char>>) -> Seq<char> {
    let name = if sysname == "Darwin"@ {
        "macOS"@
    } else {
        match pretty {
            Some(p) => p,
            None => sysname,
        }
    };
    name + " (kernel "@ + release + " "@ + machine + ")"@
}

/// The operating-system line of the report (see `os_text`).
pub fn os_description(sysname: &str, release: &str, machine: &str, pretty: Option<&str>) -> (r: String)
    ensures
        r@ == os_text(
            sysname@,
            release@,
            machine@,
            match pretty {
                Some(p) => Some(p@),
                None => None,
            },
        ),
{
    let s = chars_of(sysname);
    let mut v = if crate::text_buffer::same_chars_pub(&s, &chars_of("Darwin")) {
        chars_of("macOS")
    } else {
        match pretty {
            Some(p) => chars_of(p),
            None => s,
        }
    };
    append_chars(&mut v, &chars_of(" (kernel "));
    append_chars(&mut v, &chars_of(release));
    append_chars(&mut v, &chars_of(" "));
    append_chars(&mut v, &chars_of(machine));
    append_chars(&mut v, &chars_of(")"));
    string_of(&v)
}

/// What the version report shows.
pub struct VersionInfo {
    /// The `version` value.
    pub version: String,
    /// The `git hash` value.
    pub git_hash: String,
    /// The `build mode` value.
    pub build_mode: String,
    /// The `build time` value.
    pub build_time: String,
    /// The `build target` value.
    pub build_target: String,
    /// The `rustc version` value.
    pub rustc_version: String,
    /// The `bash version` value.
    pub bash_version: String,
    /// The `shell` value.
    pub shell: String,
    /// The `term` value.
    pub term: String,
    /// The `term program` value.
    pub term_program: String,
    /// The `term program version` value.
    pub term_program_version: String,
    /// The `lang` value.
    pub lang: String,
    /// The `lc all` value.
    pub lc_all: String,
    /// The `lc ctype` value.
    pub lc_ctype: String,
    /// The `os info` value.
    pub os_info: String,
    /// The `sys linker` value.
    pub sys_linker: String,
    /// The `dyn linker` value.
    pub dyn_linker: String,
    /// The `cpu info` value.
    pub cpu_info: String,
}

/// The text of the version report.
pub open spec fn version_report(i: VersionInfo) -> Seq<char> {
    "flyline "@
        + i.version@
        + "\ngit hash: "@
        + i.git_hash@
        + "\nbuild mode: "@
        + i.build_mode@
        + "\nbuild datetime: "@
        + i.build_time@
        + "\nbuild target: "@
        + i.build_target@
        + "\nrustc version: "@
        + i.rustc_version@
        + "\n\nRunning in: Bash "@
        + i.bash_version@
        + "\nshell: "@
        + i.shell@
        + "\n\nRunning in: "@
        + i.term@
        + "\nprogram: "@
        + i.term_program@
        + "\nprogram version: "@
        + i.term_program_version@
        + "\nlocale: "@
        + i.lang@
        + " (LC_ALL: "@
        + i.lc_all@
        + ", LC_CTYPE: "@
        + i.lc_ctype@
        + ")\n\nRunning in: "@
        + i.os_info@
        + "\nsystem linker: "@
        + i.sys_linker@
        + "\ndynamic linker: "@
        + i.dyn_linker@
        + "\n\nRunning on: "@
        + i.cpu_info@
        + "\n\nRunning in: a simulation"@
}

/// The text of the version report for `info`.
pub fn version_text(info: &VersionInfo) -> (r: String)
    ensures
        r@ == version_report(*info),
{
    let mut v: Vec<char> = Vec::new();
    append_chars(&mut v, &chars_of("flyline "));
    append_chars(&mut v, &chars_of(info.version.as_str()));
    append_chars(&mut v, &chars_of("\ngit hash: "));
    append_chars(&mut v, &chars_of(info.git_hash.as_str()));
    append_chars(&mut v, &chars_of("\nbuild mode: "));
    append_chars(&mut v, &chars_of(info.build_mode.as_str()));
    append_chars(&mut v, &chars_of("\nbuild datetime: "));
    append_chars(&mut v, &chars_of(info.build_time.as_str()));
    append_chars(&mut v, &chars_of("\nbuild target: "));
    append_chars(&mut v, &chars_of(info.build_target.as_str()));
    append_chars(&mut v, &chars_of("\nrustc version: "));
    append_chars(&mut v, &chars_of(info.rustc_version.as_str()));
    append_chars(&mut v, &chars_of("\n\nRunning in: Bash "));
    append_chars(&mut v, &chars_of(info.bash_version.as_str()));
    append_chars(&mut v, &chars_of("\nshell: "));
    append_chars(&mut v, &chars_of(info.shell.as_str()));
    append_chars(&mut v, &chars_of("\n\nRunning in: "));
    append_chars(&mut v, &chars_of(info.term.as_str()));
    append_chars(&mut v, &chars_of("\nprogram: "));
    append_chars(&mut v, &chars_of(info.term_program.as_str()));
    append_chars(&mut v, &chars_of("\nprogram version: "));
    append_chars(&mut v, &chars_of(info.term_program_version.as_str()));
    append_chars(&mut v, &chars_of("\nlocale: "));
    append_chars(&mut v, &chars_of(info.lang.as_str()));
    append_chars(&mut v, &chars_of(" (LC_ALL: "));
    append_chars(&mut v, &chars_of(info.lc_all.as_str()));
    append_chars(&mut v, &chars_of(", LC_CTYPE: "));
    append_chars(&mut v, &chars_of(info.lc_ctype.as_str()));
    append_chars(&mut v, &chars_of(")\n\nRunning in: "));
    append_chars(&mut v, &chars_of(info.os_info.as_str()));
    append_chars(&mut v, &chars_of("\nsystem linker: "));
    append_chars(&mut v, &chars_of(info.sys_linker.as_str()));
    append_chars(&mut v, &chars_of("\ndynamic linker: "));
    append_chars(&mut v, &chars_of(info.dyn_linker.as_str()));
    append_chars(&mut v, &chars_of("\n\nRunning on: "));
    append_chars(&mut v, &chars_of(info.cpu_info.as_str()));
    append_chars(&mut v, &chars_of("\n\nRunning in: a simulation"));
    string_of(&v)
}

} // verus!
