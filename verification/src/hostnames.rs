//! Host names for completion, gathered from the contents of `/etc/hosts`,
//! `~/.ssh/config` and `~/.ssh/known_hosts`.

use crate::text_ops::{
    char_fields, char_fields_exec, find_from, find_from_exec, has_prefix, has_prefix_exec, lines,
    lines_exec, split_once, split_once_exec, trim, trim_exec, words, words_exec,
};
use crate::unicode::{chars_of, string_of};
use vstd::prelude::*;

verus! {

/// `a` comes before `b` in the order of `String`: lexicographic by
/// character code (UTF-8 keeps that order byte for byte).
pub open spec fn lex_lt(a: Seq<char>, b: Seq<char>) -> bool
    decreases a.len(),
{
    if a.len() == 0 {
        b.len() > 0
    } else if b.len() == 0 {
        false
    } else if a[0] != b[0] {
        a[0] < b[0]
    } else {
        lex_lt(a.drop_first(), b.drop_first())
    }
}

/// The character sequences of character vectors.
pub open spec fn vviews(v: Seq<Vec<char>>) -> Seq<Seq<char>> {
    v.map_values(|x: Vec<char>| x@)
}

/// The character sequences of strings.
pub open spec fn sviews(v: Seq<String>) -> Seq<Seq<char>> {
    v.map_values(|x: String| x@)
}

/// `s` is in strictly increasing order.
pub open spec fn strictly_sorted(s: Seq<Seq<char>>) -> bool {
    forall|i: int, j: int| 0 <= i < j < s.len() ==> lex_lt(#[trigger] s[i], #[trigger] s[j])
}

proof fn lemma_lex_irreflexive(a: Seq<char>)
    ensures
        !lex_lt(a, a),
    decreases a.len(),
{
    if a.len() > 0 {
        lemma_lex_irreflexive(a.drop_first());
    }
}

proof fn lemma_lex_transitive(a: Seq<char>, b: Seq<char>, c: Seq<char>)
    requires
        lex_lt(a, b),
        lex_lt(b, c),
    ensures
        lex_lt(a, c),
    decreases a.len(),
{
    if a.len() > 0 && b.len() > 0 && c.len() > 0 && a[0] == b[0] && b[0] == c[0] {
        lemma_lex_transitive(a.drop_first(), b.drop_first(), c.drop_first());
    }
}

proof fn lemma_lex_total(a: Seq<char>, b: Seq<char>)
    ensures
        a == b || lex_lt(a, b) || lex_lt(b, a),
    decreases a.len(),
{
    if a.len() > 0 && b.len() > 0 && a[0] == b[0] {
        lemma_lex_total(a.drop_first(), b.drop_first());
        if a.drop_first() == b.drop_first() {
            assert(a =~= seq![a[0]] + a.drop_first());
            assert(b =~= seq![b[0]] + b.drop_first());
        }
    }
}

/// Whether `a` comes before `b`.
fn lex_less(a: &Vec<char>, b: &Vec<char>) -> (r: bool)
    ensures
        r == lex_lt(a@, b@),
{
    let mut i: usize = 0;
    assert(a@.skip(0) =~= a@);
    assert(b@.skip(0) =~= b@);
    while i < a.len() && i < b.len() && a[i] == b[i]
        invariant
            i <= a.len(),
            i <= b.len(),
            lex_lt(a@.skip(i as int), b@.skip(i as int)) == lex_lt(a@, b@),
        decreases a.len() - i,
    {
        assert(a@.skip(i as int).drop_first() =~= a@.skip(i + 1));
        assert(b@.skip(i as int).drop_first() =~= b@.skip(i + 1));
        i = i + 1;
    }
    if i == a.len() {
        i < b.len()
    } else if i == b.len() {
        false
    } else {
        a[i] < b[i]
    }
}

/// The names that a line of `/etc/hosts` gives: after removing any
/// comment, every field but the first (the address).
pub open spec fn hosts_line_names(line: Seq<char>) -> Seq<Seq<char>> {
    let content = match split_once(line, '#') {
        Some(p) => p.0,
        None => line,
    };
    let w = words(trim(content));
    if w.len() == 0 {
        w
    } else {
        w.drop_first()
    }
}

/// A `Host` pattern of `~/.ssh/config` that names one host: no `*` or `?`.
pub open spec fn plain_host(h: Seq<char>) -> bool {
    h != seq!['*'] && !h.contains('?') && !h.contains('*')
}

/// The plain host patterns among `hs`, in order.
pub open spec fn plain_hosts(hs: Seq<Seq<char>>) -> Seq<Seq<char>>
    decreases hs.len(),
{
    if hs.len() == 0 {
        hs
    } else {
        let rest = plain_hosts(hs.drop_last());
        if plain_host(hs.last()) {
            rest.push(hs.last())
        } else {
            rest
        }
    }
}

/// The names that a line of `~/.ssh/config` gives: the plain patterns of a
/// `Host ` line.
pub open spec fn ssh_line_names(line: Seq<char>) -> Seq<Seq<char>> {
    let l = trim(line);
    if has_prefix(l, "Host "@) && words(l).len() > 0 {
        plain_hosts(words(l).drop_first())
    } else {
        Seq::empty()
    }
}

/// The hosts among comma-separated fields: not empty, and not hashed
/// (hashed entries start with `|`).
pub open spec fn listed_hosts(fs: Seq<Seq<char>>) -> Seq<Seq<char>>
    decreases fs.len(),
{
    if fs.len() == 0 {
        fs
    } else {
        let rest = listed_hosts(fs.drop_last());
        if fs.last().len() > 0 && fs.last()[0] != '|' {
            rest.push(fs.last())
        } else {
            rest
        }
    }
}

/// The names that a line of `~/.ssh/known_hosts` gives: the hosts of its
/// first field, unless the line is blank or a comment.
pub open spec fn known_line_names(line: Seq<char>) -> Seq<Seq<char>> {
    let l = trim(line);
    if l.len() == 0 || l[0] == '#' || words(l).len() == 0 {
        Seq::empty()
    } else {
        listed_hosts(char_fields(words(l)[0], 0, ','))
    }
}

/// Which file a text was read from.
#[derive(Debug, Clone, Copy, PartialEq, Eq, Structural)]
pub enum HostSource {
    /// `/etc/hosts`.
    EtcHosts,
    /// `~/.ssh/config`.
    SshConfig,
    /// `~/.ssh/known_hosts`.
    KnownHosts,
}

/// The names that a line of the given file gives.
pub open spec fn line_names(k: HostSource, line: Seq<char>) -> Seq<Seq<char>> {
    match k {
        HostSource::EtcHosts => hosts_line_names(line),
        HostSource::SshConfig => ssh_line_names(line),
        HostSource::KnownHosts => known_line_names(line),
    }
}

/// The names that the lines `ls` of the given file give, in order.
pub open spec fn source_names(k: HostSource, ls: Seq<Seq<char>>) -> Seq<Seq<char>>
    decreases ls.len(),
{
    if ls.len() == 0 {
        Seq::empty()
    } else {
        source_names(k, ls.drop_last()) + line_names(k, ls.last())
    }
}

/// The names in a file's text, if it could be read.
pub open spec fn file_names(k: HostSource, text: Option<Seq<char>>) -> Seq<Seq<char>> {
    match text {
        Some(t) => source_names(k, lines(t)),
        None => Seq::empty(),
    }
}

/// Every name the three files give.
pub open spec fn all_names(hosts: Option<Seq<char>>, ssh: Option<Seq<char>>, known: Option<Seq<char>>) -> Seq<Seq<char>> {
    file_names(HostSource::EtcHosts, hosts) + file_names(HostSource::SshConfig, ssh) + file_names(
        HostSource::KnownHosts,
        known,
    )
}

/// Insert `x` into the strictly sorted `out` unless it is there or empty.
pub fn insert_sorted(out: &mut Vec<Vec<char>>, x: Vec<char>)
    requires
        strictly_sorted(vviews(old(out)@)),
    ensures
        strictly_sorted(vviews(final(out)@)),
        forall|y: Seq<char>| #[trigger] vviews(final(out)@).contains(y) <==> (vviews(old(out)@).contains(y) || (y == x@ && x@.len() > 0)),
{
    let ghost o = vviews(out@);
    if x.len() == 0 {
        return;
    }
    let mut p: usize = 0;
    while p < out.len() && lex_less(&out[p], &x)
        invariant
            p <= out.len(),
            o == vviews(out@),
            forall|i: int| 0 <= i < p ==> lex_lt(#[trigger] o[i], x@),
        decreases out.len() - p,
    {
        p = p + 1;
    }
    if p < out.len() && crate::text_buffer::same_chars_pub(&out[p], &x) {
        assert(o[p as int] == x@);
        return;
    }
    proof {
        if p < o.len() {
            lemma_lex_total(o[p as int], x@);
            assert(lex_lt(x@, o[p as int]));
            assert forall|j: int| p <= j < o.len() implies lex_lt(x@, #[trigger] o[j]) by {
                if j > p {
                    lemma_lex_transitive(x@, o[p as int], o[j]);
                }
            }
        }
    }
    out.insert(p, x);
    let ghost n = vviews(out@);
    assert(n =~= o.insert(p as int, x@));
    assert forall|i: int, j: int| 0 <= i < j < n.len() implies lex_lt(#[trigger] n[i], #[trigger] n[j]) by {
        if j == p {
        } else if i == p {
        } else if i < p && j > p {
            lemma_lex_transitive(n[i], x@, n[j]);
        } else if j < p {
            assert(n[i] == o[i] && n[j] == o[j]);
        } else {
            assert(n[i] == o[i - 1] && n[j] == o[j - 1]);
        }
    }
    assert forall|y: Seq<char>| #[trigger] n.contains(y) <==> (o.contains(y) || (y == x@ && x@.len() > 0)) by {
        if n.contains(y) {
            let k = choose|k: int| 0 <= k < n.len() && n[k] == y;
            if k < p {
                assert(o[k] == y);
            } else if k > p {
                assert(o[k - 1] == y);
            }
        }
        if o.contains(y) {
            let k = choose|k: int| 0 <= k < o.len() && o[k] == y;
            if k < p {
                assert(n[k] == y);
            } else {
                assert(n[k + 1] == y);
            }
        }
        if y == x@ {
            assert(n[p as int] == y);
        }
    }
}

/// The names that one line gives.
fn line_names_exec(k: HostSource, line: &Vec<char>) -> (r: Vec<Vec<char>>)
    ensures
        vviews(r@) == line_names(k, line@),
{
    match k {
        HostSource::EtcHosts => {
            let content = match split_once_exec(line, '#') {
                Some(p) => p.0,
                None => line.clone(),
            };
            let mut w = words_exec(&trim_exec(&content));
            if w.len() > 0 {
                w.remove(0);
            }
            proof {
                assert(vviews(w@) =~= hosts_line_names(line@));
            }
            w
        },
        HostSource::SshConfig => {
            let l = trim_exec(line);
            let w = words_exec(&l);
            let mut out: Vec<Vec<char>> = Vec::new();
            if has_prefix_exec(&l, &chars_of("Host ")) && w.len() > 0 {
                let ghost ws = vviews(w@).drop_first();
                let mut i: usize = 1;
                while i < w.len()
                    invariant
                        1 <= i <= w.len(),
                        ws == vviews(w@).drop_first(),
                        vviews(out@) == plain_hosts(ws.take(i - 1)),
                    decreases w.len() - i,
                {
                    let h = &w[i];
                    assert(ws.take(i as int).drop_last() =~= ws.take(i - 1));
                    assert(ws[i - 1] == h@);
                    let mut q: Vec<char> = Vec::new();
                    q.push('?');
                    let mut star: Vec<char> = Vec::new();
                    star.push('*');
                    assert(q@ =~= seq!['?']);
                    assert(star@ =~= seq!['*']);
                    let has_q = find_from_exec(h, &q, 0).is_some();
                    let has_star = find_from_exec(h, &star, 0).is_some();
                    proof {
                        lemma_contains_char(h@, '?');
                        lemma_contains_char(h@, '*');
                    }
                    let only_star = h.len() == 1 && h[0] == '*';
                    proof {
                        if h@ == seq!['*'] {
                            assert(only_star);
                        }
                    }
                    let ghost before = vviews(out@);
                    if !only_star && !has_q && !has_star {
                        out.push(h.clone());
                        assert(vviews(out@) =~= before.push(h@));
                    }
                    i = i + 1;
                }
                assert(ws.take(w.len() - 1) =~= ws);
            }
            out
        },
        HostSource::KnownHosts => {
            let l = trim_exec(line);
            let mut out: Vec<Vec<char>> = Vec::new();
            if l.len() == 0 || l[0] == '#' {
                return out;
            }
            let w = words_exec(&l);
            if w.len() == 0 {
                return out;
            }
            let fs = char_fields_exec(&w[0], ',');
            let ghost fv = vviews(fs@);
            let mut i: usize = 0;
            while i < fs.len()
                invariant
                    i <= fs.len(),
                    fv == vviews(fs@),
                    vviews(out@) == listed_hosts(fv.take(i as int)),
                decreases fs.len() - i,
            {
                assert(fv.take(i + 1).drop_last() =~= fv.take(i as int));
                assert(fv[i as int] == fs@[i as int]@);
                let ghost before = vviews(out@);
                if fs[i].len() > 0 && fs[i][0] != '|' {
                    out.push(fs[i].clone());
                    assert(vviews(out@) =~= before.push(fv[i as int]));
                }
                i = i + 1;
            }
            assert(fv.take(fs.len() as int) =~= fv);
            out
        },
    }
}

/// `find_from` of a one-character pattern tells whether it occurs.
proof fn lemma_contains_char(s: Seq<char>, c: char)
    ensures
        (find_from(s, seq![c], 0) is Some) == s.contains(c),
{
    if find_from(s, seq![c], 0) is Some {
        crate::text_ops::lemma_find_from_occurs(s, seq![c], 0);
        let k = find_from(s, seq![c], 0).unwrap();
        assert(s.subrange(k, k + 1)[0] == s[k]);
    }
    if s.contains(c) {
        let k = choose|k: int| 0 <= k < s.len() && s[k] == c;
        assert(s.subrange(k, k + 1) =~= seq![c]);
        crate::text_ops::lemma_find_from_finds(s, seq![c], 0, k);
    }
}

/// Add the names of one file to the sorted set `out`.
fn add_file(out: &mut Vec<Vec<char>>, k: HostSource, text: Option<&str>, Ghost(prev): Ghost<Seq<Seq<char>>>)
    requires
        strictly_sorted(vviews(old(out)@)),
        forall|y: Seq<char>| #[trigger] vviews(old(out)@).contains(y) <==> (prev.contains(y) && y.len() > 0),
    ensures
        strictly_sorted(vviews(final(out)@)),
        forall|y: Seq<char>| #[trigger] vviews(final(out)@).contains(y) <==> ((prev + file_names(k, opt_view(text))).contains(y) && y.len() > 0),
{
    match text {
        None => {
            assert(prev + Seq::<Seq<char>>::empty() =~= prev);
        },
        Some(t) => {
            let ls = lines_exec(&chars_of(t));
            let ghost lv = vviews(ls@);
            let mut i: usize = 0;
            while i < ls.len()
                invariant
                    i <= ls.len(),
                    lv == vviews(ls@),
                    lv == lines(t@),
                    strictly_sorted(vviews(out@)),
                    forall|y: Seq<char>| #[trigger] vviews(out@).contains(y) <==> ((prev + source_names(k, lv.take(i as int))).contains(y) && y.len() > 0),
                decreases ls.len() - i,
            {
                assert(lv.take(i + 1).drop_last() =~= lv.take(i as int));
                assert(lv[i as int] == ls@[i as int]@);
                let ns = line_names_exec(k, &ls[i]);
                let ghost nv = vviews(ns@);
                let ghost base = prev + source_names(k, lv.take(i as int));
                let mut j: usize = 0;
                while j < ns.len()
                    invariant
                        j <= ns.len(),
                        nv == vviews(ns@),
                        strictly_sorted(vviews(out@)),
                        forall|y: Seq<char>| #[trigger] vviews(out@).contains(y) <==> ((base + nv.take(j as int)).contains(y) && y.len() > 0),
                    decreases ns.len() - j,
                {
                    let ghost b2 = base + nv.take(j as int);
                    assert(base + nv.take(j + 1) =~= b2.push(nv[j as int]));
                    assert(nv[j as int] == ns@[j as int]@);
                    insert_sorted(out, ns[j].clone());
                    assert forall|y: Seq<char>| #[trigger] vviews(out@).contains(y) <==> ((base + nv.take(j + 1)).contains(y) && y.len() > 0) by {
                        let b3 = b2.push(nv[j as int]);
                        if b3.contains(y) && !(y == nv[j as int]) {
                            let q = choose|q: int| 0 <= q < b3.len() && b3[q] == y;
                            assert(b2[q] == y);
                        }
                        if b2.contains(y) {
                            let q = choose|q: int| 0 <= q < b2.len() && b2[q] == y;
                            assert(b3[q] == y);
                        }
                        if y == nv[j as int] {
                            assert(b3[b2.len() as int] == y);
                        }
                    }
                    j = j + 1;
                }
                assert(nv.take(ns.len() as int) =~= nv);
                assert(prev + source_names(k, lv.take(i + 1)) =~= base + nv);
                i = i + 1;
            }
            assert(lv.take(ls.len() as int) =~= lv);
        },
    }
}

/// The view of an optional text.
pub open spec fn opt_view(t: Option<&str>) -> Option<Seq<char>> {
    match t {
        Some(s) => Some(s@),
        None => None,
    }
}

/// Every host name found in the texts of `/etc/hosts`, `~/.ssh/config`
/// and `~/.ssh/known_hosts` (each `None` when it could not be read), each
/// once, in sorted order.
pub fn get_all_hostnames(etc_hosts: Option<&str>, ssh_config: Option<&str>, known_hosts: Option<&str>) -> (r: Vec<String>)
    ensures
        strictly_sorted(sviews(r@)),
        forall|y: Seq<char>| #[trigger] sviews(r@).contains(y) <==> (all_names(
            opt_view(etc_hosts),
            opt_view(ssh_config),
            opt_view(known_hosts),
        ).contains(y) && y.len() > 0),
{
    let mut out: Vec<Vec<char>> = Vec::new();
    let ghost e = Seq::<Seq<char>>::empty();
    assert(vviews(out@) =~= Seq::<Seq<char>>::empty());
    add_file(&mut out, HostSource::EtcHosts, etc_hosts, Ghost(e));
    let ghost a1 = e + file_names(HostSource::EtcHosts, opt_view(etc_hosts));
    add_file(&mut out, HostSource::SshConfig, ssh_config, Ghost(a1));
    let ghost a2 = a1 + file_names(HostSource::SshConfig, opt_view(ssh_config));
    add_file(&mut out, HostSource::KnownHosts, known_hosts, Ghost(a2));
    assert(a2 + file_names(HostSource::KnownHosts, opt_view(known_hosts)) =~= all_names(
        opt_view(etc_hosts),
        opt_view(ssh_config),
        opt_view(known_hosts),
    ));
    let ghost ov = vviews(out@);
    let mut r: Vec<String> = Vec::new();
    let mut i: usize = 0;
    while i < out.len()
        invariant
            i <= out.len(),
            ov == vviews(out@),
            sviews(r@) == ov.take(i as int),
        decreases out.len() - i,
    {
        let ghost before = r@;
        let st = string_of(&out[i]);
        r.push(st);
        assert(ov[i as int] == out@[i as int]@);
        assert(sviews(r@) =~= sviews(before).push(st@));
        assert(sviews(r@) =~= ov.take(i + 1));
        i = i + 1;
    }
    assert(ov.take(out.len() as int) =~= ov);
    r
}

} // verus!
