//! Package sets: Brewfiles and apt lists, and what is installed besides them.
use vstd::prelude::*;
use crate::schema::OsKind;
use crate::order::{sort_dedup_strings, strictly_sorted_lex};
use crate::paths::{join, join_path, packages_dir};
use crate::text::{
    before_char, before_char_chars, chars_of, concat3, lines, lines_of, lower_ascii,
    lower_ascii_chars, starts_with, starts_with_chars, string_of, trim, trim_by, trim_chars,
    trim_chars_by, views, CharClass,
};

verus! {

/// The entries of one package set: Brewfile entries (`brew:git`, `cask:cursor`)
/// and apt package names.
#[derive(Debug, Clone)]
pub struct PackageSetContents {
    pub brew: Vec<String>,
    pub apt: Vec<String>,
}

pub open spec fn spec_packages_for_os(set: PackageSetContents, os: OsKind) -> Seq<String> {
    match os {
        OsKind::Macos => set.brew@,
        OsKind::Linux => set.apt@,
    }
}

/// The Brewfile of package set `name` under `root`.
pub fn brewfile_path(root: &str, name: &str) -> (r: String)
    ensures
        r@ == join_path(join_path(join_path(root@, "packages"@), "brew"@), name@ + ".Brewfile"@),
{
    let p = packages_dir(root);
    let b = join(p.as_str(), "brew");
    let f = crate::text::concat2(name, ".Brewfile");
    join(b.as_str(), f.as_str())
}

/// The apt list of package set `name` under `root`.
pub fn apt_list_path(root: &str, name: &str) -> (r: String)
    ensures
        r@ == join_path(join_path(join_path(root@, "packages"@), "apt"@), name@ + ".list"@),
{
    let p = packages_dir(root);
    let b = join(p.as_str(), "apt");
    let f = crate::text::concat2(name, ".list");
    join(b.as_str(), f.as_str())
}

/// A package set from the text of its Brewfile and apt list (each empty when
/// the file is not there).
pub fn load_package_set(brewfile: Option<&str>, apt_list: Option<&str>) -> (r: PackageSetContents)
    ensures
        views(r.brew@) == match brewfile {
            Some(b) => brewfile_entries(lines(b@)),
            None => Seq::<Seq<char>>::empty(),
        },
        views(r.apt@) == match apt_list {
            Some(a) => apt_entries(lines(a@)),
            None => Seq::<Seq<char>>::empty(),
        },
{
    let brew = match brewfile {
        Some(b) => parse_brewfile(b),
        None => Vec::new(),
    };
    let apt = match apt_list {
        Some(a) => parse_apt_list(a),
        None => Vec::new(),
    };
    assert(brewfile is None ==> views(brew@) =~= Seq::<Seq<char>>::empty());
    assert(apt_list is None ==> views(apt@) =~= Seq::<Seq<char>>::empty());
    PackageSetContents { brew, apt }
}

/// The entries for `os`: Brewfile entries on macOS, apt names on Linux.
pub fn packages_for_os(set: &PackageSetContents, os: OsKind) -> (r: &[String])
    ensures
        r@ == spec_packages_for_os(*set, os),
{
    match os {
        OsKind::Macos => set.brew.as_slice(),
        OsKind::Linux => set.apt.as_slice(),
    }
}

/// A line without its `#` comment, trimmed.
pub open spec fn clean_line(l: Seq<char>) -> Seq<char> {
    trim(before_char(l, '#'))
}

/// The package name of a directive's argument: the first comma-separated
/// field, trimmed and unquoted.
pub open spec fn directive_name(rest: Seq<char>) -> Seq<char> {
    trim_by(trim(before_char(trim_by(trim(rest), CharClass::Quote), ',')), CharClass::Quote)
}

/// `kind "name", ...` as `kind:name`, when the line is a directive of that kind
/// with a non-empty name.
pub open spec fn directive_for(line: Seq<char>, kind: Seq<char>) -> Option<Seq<char>> {
    let prefix = kind + " "@;
    if starts_with(line, prefix) {
        let name = directive_name(line.subrange(prefix.len() as int, line.len() as int));
        if name.len() > 0 {
            Some(kind + ":"@ + name)
        } else {
            None
        }
    } else {
        None
    }
}

/// The first of the `brew`, `cask`, `tap` and `mas` directives that the line is.
pub open spec fn spec_brew_directive(line: Seq<char>) -> Option<Seq<char>> {
    match directive_for(line, "brew"@) {
        Some(p) => Some(p),
        None => match directive_for(line, "cask"@) {
            Some(p) => Some(p),
            None => match directive_for(line, "tap"@) {
                Some(p) => Some(p),
                None => directive_for(line, "mas"@),
            },
        },
    }
}

/// The entries of the Brewfile whose lines are `ls`, in order.
pub open spec fn brewfile_entries(ls: Seq<Seq<char>>) -> Seq<Seq<char>>
    decreases ls.len(),
{
    if ls.len() == 0 {
        seq![]
    } else {
        let rest = brewfile_entries(ls.drop_last());
        let t = clean_line(ls.last());
        if t.len() > 0 {
            match spec_brew_directive(t) {
                Some(p) => rest.push(p),
                None => rest,
            }
        } else {
            rest
        }
    }
}

/// The package names of the apt list whose lines are `ls`, in order.
pub open spec fn apt_entries(ls: Seq<Seq<char>>) -> Seq<Seq<char>>
    decreases ls.len(),
{
    if ls.len() == 0 {
        seq![]
    } else {
        let rest = apt_entries(ls.drop_last());
        let t = clean_line(ls.last());
        if t.len() > 0 {
            rest.push(t)
        } else {
            rest
        }
    }
}

/// `line.split('#').next()`: the line without its comment.
pub fn strip_comment(line: &[char]) -> (out: Vec<char>)
    ensures
        out@ == before_char(line@, '#'),
{
    before_char_chars(line, '#')
}

fn directive_for_exec(line: &[char], kind: &str) -> (r: Option<String>)
    ensures
        match r {
            Some(p) => directive_for(line@, kind@) == Some(p@),
            None => directive_for(line@, kind@) is None,
        },
{
    let prefix_s = crate::text::concat2(kind, " ");
    let prefix = chars_of(prefix_s.as_str());
    if !starts_with_chars(line, prefix.as_slice()) {
        return None;
    }
    let rest = crate::text::copy_range(line, prefix.len(), line.len());
    let a = trim_chars(rest.as_slice());
    let b = trim_chars_by(a.as_slice(), CharClass::Quote);
    let c = before_char_chars(b.as_slice(), ',');
    let d = trim_chars(c.as_slice());
    let name = trim_chars_by(d.as_slice(), CharClass::Quote);
    if name.len() > 0 {
        let n = string_of(name.as_slice());
        Some(concat3(kind, ":", n.as_str()))
    } else {
        None
    }
}

/// One Brewfile line (comment stripped and trimmed) as a `kind:name` entry.
pub fn parse_brew_directive(line: &[char]) -> (r: Option<String>)
    ensures
        match r {
            Some(p) => spec_brew_directive(line@) == Some(p@),
            None => spec_brew_directive(line@) is None,
        },
{
    match directive_for_exec(line, "brew") {
        Some(p) => Some(p),
        None => match directive_for_exec(line, "cask") {
            Some(p) => Some(p),
            None => match directive_for_exec(line, "tap") {
                Some(p) => Some(p),
                None => directive_for_exec(line, "mas"),
            },
        },
    }
}

proof fn lemma_trim_by_noop(s: Seq<char>, cls: CharClass)
    requires
        s.len() > 0,
        !crate::text::in_class(cls, s[0]),
        !crate::text::in_class(cls, s.last()),
    ensures
        trim_by(s, cls) == s,
{
    assert(crate::text::skip_fwd(s, 0, cls) == 0);
    assert(s.subrange(0, s.len() as int) =~= s);
    assert(crate::text::skip_back(s, s.len() as int, cls) == s.len());
}

proof fn lemma_unquote(name: Seq<char>)
    requires
        name.len() > 0,
        name[0] != '"' && name[0] != '\'',
        name.last() != '"' && name.last() != '\'',
    ensures
        trim_by(seq!['"'] + name + seq!['"'], CharClass::Quote) == name,
{
    let q = seq!['"'] + name + seq!['"'];
    assert(q[1] == name[0]);
    assert(crate::text::skip_fwd(q, 1, CharClass::Quote) == 1);
    assert(crate::text::skip_fwd(q, 0, CharClass::Quote) == 1);
    let t = q.subrange(1, q.len() as int);
    assert(t =~= name + seq!['"']);
    assert(t[t.len() - 2] == name.last());
    assert(crate::text::skip_back(t, t.len() - 1, CharClass::Quote) == t.len() - 1);
    assert(crate::text::skip_back(t, t.len() as int, CharClass::Quote) == t.len() - 1);
    assert(t.subrange(0, t.len() - 1) =~= name);
}

/// A name without blanks, quotes, commas or `#`.
pub open spec fn plain_name(name: Seq<char>) -> bool {
    &&& name.len() > 0
    &&& forall|k: int|
        0 <= k < name.len() ==> !crate::text::is_ws(#[trigger] name[k]) && name[k] != '"' && name[k] != '\''
            && name[k] != ',' && name[k] != '#'
}

proof fn lemma_directive_name(name: Seq<char>)
    requires
        plain_name(name),
    ensures
        directive_name(seq!['"'] + name + seq!['"']) == name,
{
    let q = seq!['"'] + name + seq!['"'];
    assert(!crate::text::is_ws(name[0]));
    assert(!crate::text::is_ws(name[name.len() - 1]));
    lemma_trim_by_noop(q, CharClass::Whitespace);
    lemma_unquote(name);
    crate::text::lemma_next_char_bounds(name, 0, ',');
    assert(before_char(name, ',') =~= name);
    lemma_trim_by_noop(name, CharClass::Whitespace);
    lemma_trim_by_noop(name, CharClass::Quote);
}

/// The Brewfile kinds.
pub open spec fn brew_kind(kind: Seq<char>) -> bool {
    kind == "brew"@ || kind == "cask"@ || kind == "tap"@ || kind == "mas"@
}

proof fn lemma_directive_kinds(kind: Seq<char>, name: Seq<char>, other: Seq<char>)
    requires
        brew_kind(kind),
        brew_kind(other),
        plain_name(name),
    ensures
        directive_for(kind + seq![' ', '"'] + name + seq!['"'], other) == if other == kind {
            Some(kind + seq![':'] + name)
        } else {
            None
        },
{
    reveal_strlit("brew");
    reveal_strlit("cask");
    reveal_strlit("tap");
    reveal_strlit("mas");
    reveal_strlit(" ");
    reveal_strlit(":");
    let q = seq!['"'] + name + seq!['"'];
    let line = kind + seq![' ', '"'] + name + seq!['"'];
    if other == kind {
        lemma_directive_name(name);
        let prefix = kind + " "@;
        assert(line.subrange(0, prefix.len() as int) =~= prefix);
        assert(line.subrange(prefix.len() as int, line.len() as int) =~= q);
        assert(":"@ =~= seq![':']);
    } else {
        assert(line[0] == kind[0]);
        if starts_with(line, other + " "@) {
            assert(line.subrange(0, (other + " "@).len() as int)[0] == (other + " "@)[0]);
        }
    }
}

proof fn lemma_one_line_body(kind: Seq<char>, name: Seq<char>)
    requires
        brew_kind(kind),
        plain_name(name),
    ensures
        lines(kind + seq![' ', '"'] + name + seq!['"', '\n']) == seq![kind + seq![' ', '"'] + name + seq!['"']],
        clean_line(kind + seq![' ', '"'] + name + seq!['"']) == kind + seq![' ', '"'] + name + seq!['"'],
{
    reveal_strlit("brew");
    reveal_strlit("cask");
    reveal_strlit("tap");
    reveal_strlit("mas");
    reveal_strlit("\n");
    let line = kind + seq![' ', '"'] + name + seq!['"'];
    let body = kind + seq![' ', '"'] + name + seq!['"', '\n'];
    assert(body =~= crate::text::join(seq![line], "\n"@) + "\n"@);
    assert forall|k: int| 0 <= k < line.len() implies line[k] != '\n' && line[k] != '#' by {
        if k >= kind.len() + 2 && k < kind.len() + 2 + name.len() {
            assert(line[k] == name[k - kind.len() - 2]);
        }
    }
    assert(!line.contains('\n'));
    assert(line.last() == '"');
    crate::text::lemma_lines_of_joined(seq![line]);
    crate::text::lemma_next_char_bounds(line, 0, '#');
    assert(before_char(line, '#') =~= line);
    assert(line[0] == kind[0]);
    lemma_trim_by_noop(line, CharClass::Whitespace);
}

/// A Brewfile line `kind "name"` is the entry `kind:name`, for each of the
/// four kinds (`brew`, `cask`, `tap`, `mas`) and any package name without
/// blanks, quotes, commas or `#`; a Brewfile made of that one line lists
/// exactly that entry.
pub proof fn law_brewfile_line(kind: Seq<char>, name: Seq<char>)
    requires
        kind == "brew"@ || kind == "cask"@ || kind == "tap"@ || kind == "mas"@,
        plain_name(name),
    ensures
        spec_brew_directive(kind + seq![' ', '"'] + name + seq!['"']) == Some(kind + seq![':'] + name),
        brewfile_entries(lines(kind + seq![' ', '"'] + name + seq!['"', '\n'])) == seq![kind + seq![':'] + name],
{
    let line = kind + seq![' ', '"'] + name + seq!['"'];
    lemma_directive_kinds(kind, name, "brew"@);
    lemma_directive_kinds(kind, name, "cask"@);
    lemma_directive_kinds(kind, name, "tap"@);
    lemma_directive_kinds(kind, name, "mas"@);
    assert(spec_brew_directive(line) == Some(kind + seq![':'] + name));
    lemma_one_line_body(kind, name);
    let one = seq![line];
    assert(one.drop_last() =~= Seq::<Seq<char>>::empty());
    assert(one.last() == line);
    assert(brewfile_entries(Seq::<Seq<char>>::empty()) =~= Seq::<Seq<char>>::empty());
    assert(clean_line(line) == line);
    assert(line.len() > 0);
    assert(brewfile_entries(one) == brewfile_entries(Seq::<Seq<char>>::empty()).push(kind + seq![':'] + name));
    assert(brewfile_entries(one) =~= seq![kind + seq![':'] + name]);
}

/// Parse Homebrew Brewfile lines into `kind:name` entries (e.g. `brew:git`, `cask:cursor`).
pub fn parse_brewfile(body: &str) -> (out: Vec<String>)
    ensures
        views(out@) == brewfile_entries(lines(body@)),
{
    let v = chars_of(body);
    let ls = lines_of(v.as_slice());
    let ghost lv = ls@.map_values(|l: Vec<char>| l@);
    let mut out: Vec<String> = Vec::new();
    let mut i: usize = 0;
    while i < ls.len()
        invariant
            i <= ls.len(),
            lv == ls@.map_values(|l: Vec<char>| l@),
            views(out@) == brewfile_entries(lv.subrange(0, i as int)),
        decreases ls.len() - i,
    {
        let ghost pre = lv.subrange(0, i as int);
        assert(lv.subrange(0, i + 1).drop_last() =~= pre);
        assert(lv.subrange(0, i + 1).last() == ls@[i as int]@);
        let c = strip_comment(ls[i].as_slice());
        let t = trim_chars(c.as_slice());
        if t.len() > 0 {
            let ghost before = views(out@);
            match parse_brew_directive(t.as_slice()) {
                Some(p) => {
                    out.push(p);
                    assert(views(out@) =~= before.push(spec_brew_directive(t@)->0));
                },
                None => {},
            }
        }
        i = i + 1;
    }
    assert(lv.subrange(0, ls.len() as int) =~= lv);
    out
}

/// The package names of an apt list, comments and blank lines dropped.
pub fn parse_apt_list(body: &str) -> (out: Vec<String>)
    ensures
        views(out@) == apt_entries(lines(body@)),
{
    let v = chars_of(body);
    let ls = lines_of(v.as_slice());
    let ghost lv = ls@.map_values(|l: Vec<char>| l@);
    let mut out: Vec<String> = Vec::new();
    let mut i: usize = 0;
    while i < ls.len()
        invariant
            i <= ls.len(),
            lv == ls@.map_values(|l: Vec<char>| l@),
            views(out@) == apt_entries(lv.subrange(0, i as int)),
        decreases ls.len() - i,
    {
        let ghost pre = lv.subrange(0, i as int);
        assert(lv.subrange(0, i + 1).drop_last() =~= pre);
        assert(lv.subrange(0, i + 1).last() == ls@[i as int]@);
        let c = strip_comment(ls[i].as_slice());
        let t = trim_chars(c.as_slice());
        if t.len() > 0 {
            let ghost before = views(out@);
            out.push(string_of(t.as_slice()));
            assert(views(out@) =~= before.push(t@));
        }
        i = i + 1;
    }
    assert(lv.subrange(0, ls.len() as int) =~= lv);
    out
}

/// Whether an entry of a set counts as recommended on `os`: any apt name on
/// Linux, a `brew:` or `cask:` entry on macOS.
pub open spec fn counts_for_os(raw: Seq<char>, os: OsKind) -> bool {
    match os {
        OsKind::Macos => starts_with(raw, "brew:"@) || starts_with(raw, "cask:"@),
        OsKind::Linux => true,
    }
}

/// `x` is the lower-cased form of a counting entry of one of the sets.
pub open spec fn recommended(sets: Seq<PackageSetContents>, os: OsKind, x: Seq<char>) -> bool {
    exists|k: int, j: int|
        0 <= k < sets.len() && 0 <= j < spec_packages_for_os(sets[k], os).len() && counts_for_os(
            #[trigger] spec_packages_for_os(sets[k], os)[j]@,
            os,
        ) && lower_ascii(spec_packages_for_os(sets[k], os)[j]@) == x
}

fn counts_for_os_exec(raw: &[char], os: OsKind) -> (b: bool)
    ensures
        b == counts_for_os(raw@, os),
{
    match os {
        OsKind::Macos => {
            let b = chars_of("brew:");
            let c = chars_of("cask:");
            starts_with_chars(raw, b.as_slice()) || starts_with_chars(raw, c.as_slice())
        },
        OsKind::Linux => true,
    }
}

/// Names from role/host package sets, tagged `brew:`, `cask:`, or unprefixed
/// (apt), lower-cased; sorted and without repeats.
pub fn recommended_for_os(sets: &[PackageSetContents], os: OsKind) -> (out: Vec<String>)
    ensures
        strictly_sorted_lex(views(out@)),
        forall|x: Seq<char>| views(out@).contains(x) <==> recommended(sets@, os, x),
{
    let mut acc: Vec<String> = Vec::new();
    let mut k: usize = 0;
    while k < sets.len()
        invariant
            k <= sets.len(),
            forall|x: Seq<char>|
                views(acc@).contains(x) <==> exists|kk: int, j: int|
                    0 <= kk < k && 0 <= j < spec_packages_for_os(sets@[kk], os).len()
                        && counts_for_os(#[trigger] spec_packages_for_os(sets@[kk], os)[j]@, os)
                        && lower_ascii(spec_packages_for_os(sets@[kk], os)[j]@) == x,
        decreases sets.len() - k,
    {
        let list = packages_for_os(&sets[k], os);
        let mut j: usize = 0;
        while j < list.len()
            invariant
                k < sets.len(),
                j <= list.len(),
                list@ == spec_packages_for_os(sets@[k as int], os),
                forall|x: Seq<char>|
                    views(acc@).contains(x) <==> (exists|kk: int, jj: int|
                        0 <= kk < k && 0 <= jj < spec_packages_for_os(sets@[kk], os).len()
                            && counts_for_os(#[trigger] spec_packages_for_os(sets@[kk], os)[jj]@, os)
                            && lower_ascii(spec_packages_for_os(sets@[kk], os)[jj]@) == x) || (
                    exists|jj: int|
                        0 <= jj < j && counts_for_os(#[trigger] list@[jj]@, os) && lower_ascii(
                            list@[jj]@,
                        ) == x),
            decreases list.len() - j,
        {
            let raw = chars_of(list[j].as_str());
            if counts_for_os_exec(raw.as_slice(), os) {
                let lower = lower_ascii_chars(raw.as_slice());
                let ghost before = views(acc@);
                acc.push(string_of(lower.as_slice()));
                proof {
                    assert(views(acc@) =~= before.push(lower@));
                    assert forall|x: Seq<char>| views(acc@).contains(x) <==> before.contains(x) || x == lower@ by {
                        if views(acc@).contains(x) {
                            let i = choose|i: int| 0 <= i < views(acc@).len() && views(acc@)[i] == x;
                            if i < before.len() {
                                assert(before[i] == x);
                            }
                        }
                        if before.contains(x) {
                            let i = choose|i: int| 0 <= i < before.len() && before[i] == x;
                            assert(views(acc@)[i] == x);
                        }
                        if x == lower@ {
                            assert(views(acc@)[before.len() as int] == x);
                        }
                    }
                    assert forall|x: Seq<char>| views(acc@).contains(x) <==> (exists|kk: int, jj: int|
                        0 <= kk < k && 0 <= jj < spec_packages_for_os(sets@[kk], os).len()
                            && counts_for_os(#[trigger] spec_packages_for_os(sets@[kk], os)[jj]@, os)
                            && lower_ascii(spec_packages_for_os(sets@[kk], os)[jj]@) == x) || (
                        exists|jj: int|
                            0 <= jj < j + 1 && counts_for_os(#[trigger] list@[jj]@, os)
                                && lower_ascii(list@[jj]@) == x) by {
                        assert(counts_for_os(list@[j as int]@, os));
                        assert(lower_ascii(list@[j as int]@) == lower@);
                        if views(acc@).contains(x) && !before.contains(x) {
                            assert(x == lower@);
                        }
                        if before.contains(x) {
                            if !(exists|kk: int, jj: int|
                                0 <= kk < k && 0 <= jj < spec_packages_for_os(sets@[kk], os).len()
                                    && counts_for_os(#[trigger] spec_packages_for_os(sets@[kk], os)[jj]@, os)
                                    && lower_ascii(spec_packages_for_os(sets@[kk], os)[jj]@) == x) {
                                let jj = choose|jj: int|
                                    0 <= jj < j && counts_for_os(#[trigger] list@[jj]@, os)
                                        && lower_ascii(list@[jj]@) == x;
                                assert(0 <= jj < j + 1 && counts_for_os(list@[jj]@, os)
                                        && lower_ascii(list@[jj]@) == x);
                            }
                        }
                        if exists|jj: int|
                            0 <= jj < j + 1 && counts_for_os(#[trigger] list@[jj]@, os)
                                && lower_ascii(list@[jj]@) == x {
                            let jj = choose|jj: int|
                                0 <= jj < j + 1 && counts_for_os(#[trigger] list@[jj]@, os)
                                    && lower_ascii(list@[jj]@) == x;
                            if jj < j {
                                assert(before.contains(x));
                            }
                        }
                    }
                }
            }
            j = j + 1;
        }
        proof {
            assert forall|x: Seq<char>| views(acc@).contains(x) <==> exists|kk: int, jj: int|
                0 <= kk < k + 1 && 0 <= jj < spec_packages_for_os(sets@[kk], os).len()
                    && counts_for_os(#[trigger] spec_packages_for_os(sets@[kk], os)[jj]@, os)
                    && lower_ascii(spec_packages_for_os(sets@[kk], os)[jj]@) == x by {
                if exists|jj: int|
                    0 <= jj < j && counts_for_os(#[trigger] list@[jj]@, os) && lower_ascii(
                        list@[jj]@,
                    ) == x {
                    let jj = choose|jj: int|
                        0 <= jj < j && counts_for_os(#[trigger] list@[jj]@, os) && lower_ascii(
                            list@[jj]@,
                        ) == x;
                    assert(spec_packages_for_os(sets@[k as int], os)[jj] == list@[jj]);
                }
            }
        }
        k = k + 1;
    }
    sort_dedup_strings(acc)
}

/// An installed name (lower-cased) that is non-empty and not recommended.
pub open spec fn is_extra(installed: Seq<Seq<char>>, recommended: Seq<Seq<char>>, x: Seq<char>) -> bool {
    x.len() > 0 && !recommended.contains(x) && exists|i: int|
        0 <= i < installed.len() && lower_ascii(#[trigger] installed[i]) == x
}

fn contains_string(list: &[String], x: &Vec<char>) -> (b: bool)
    ensures
        b == views(list@).contains(x@),
{
    let mut i: usize = 0;
    while i < list.len()
        invariant
            i <= list.len(),
            forall|k: int| 0 <= k < i ==> views(list@)[k] != x@,
        decreases list.len() - i,
    {
        let c = chars_of(list[i].as_str());
        if crate::text::chars_eq(c.as_slice(), x.as_slice()) {
            assert(views(list@)[i as int] == x@);
            return true;
        }
        i = i + 1;
    }
    false
}

/// Installed names minus recommended, lower-cased, sorted and without repeats.
/// `installed` uses the same tags as recommended.
pub fn extras_sorted(installed: &[String], recommended: &[String]) -> (out: Vec<String>)
    ensures
        strictly_sorted_lex(views(out@)),
        forall|x: Seq<char>| views(out@).contains(x) <==> is_extra(views(installed@), views(recommended@), x),
{
    let mut acc: Vec<String> = Vec::new();
    let mut i: usize = 0;
    while i < installed.len()
        invariant
            i <= installed.len(),
            forall|x: Seq<char>| views(acc@).contains(x) <==> (x.len() > 0 && !views(recommended@).contains(x)
                && exists|k: int| 0 <= k < i && lower_ascii(#[trigger] views(installed@)[k]) == x),
        decreases installed.len() - i,
    {
        let raw = chars_of(installed[i].as_str());
        let lower = lower_ascii_chars(raw.as_slice());
        assert(views(installed@)[i as int] == raw@);
        if lower.len() > 0 && !contains_string(recommended, &lower) {
            let ghost before = views(acc@);
            acc.push(string_of(lower.as_slice()));
            proof {
                assert(views(acc@) =~= before.push(lower@));
                assert forall|x: Seq<char>| views(acc@).contains(x) <==> (x.len() > 0 && !views(recommended@).contains(x)
                    && exists|k: int| 0 <= k < i + 1 && lower_ascii(#[trigger] views(installed@)[k]) == x) by {
                    assert(lower_ascii(views(installed@)[i as int]) == lower@);
                    if views(acc@).contains(x) {
                        let j = choose|j: int| 0 <= j < views(acc@).len() && views(acc@)[j] == x;
                        if j < before.len() {
                            assert(before[j] == x);
                            assert(before.contains(x));
                        } else {
                            assert(x == lower@);
                            assert(0 <= i < i + 1 && lower_ascii(views(installed@)[i as int]) == x);
                        }
                    }
                    if before.contains(x) {
                        let k = choose|k: int| 0 <= k < i && lower_ascii(#[trigger] views(installed@)[k]) == x;
                        assert(0 <= k < i + 1 && lower_ascii(views(installed@)[k]) == x);
                    }
                    if x.len() > 0 && !views(recommended@).contains(x) && exists|k: int| 0 <= k < i + 1 && lower_ascii(#[trigger] views(installed@)[k]) == x {
                        let k = choose|k: int| 0 <= k < i + 1 && lower_ascii(#[trigger] views(installed@)[k]) == x;
                        if k < i {
                            assert(before.contains(x));
                            let j = choose|j: int| 0 <= j < before.len() && before[j] == x;
                            assert(views(acc@)[j] == x);
                        } else {
                            assert(views(acc@)[before.len() as int] == x);
                        }
                    }
                }
            }
        } else {
            proof {
                assert forall|x: Seq<char>| views(acc@).contains(x) <==> (x.len() > 0 && !views(recommended@).contains(x)
                    && exists|k: int| 0 <= k < i + 1 && lower_ascii(#[trigger] views(installed@)[k]) == x) by {
                    if x.len() > 0 && !views(recommended@).contains(x) && exists|k: int| 0 <= k < i + 1 && lower_ascii(#[trigger] views(installed@)[k]) == x {
                        let k = choose|k: int| 0 <= k < i + 1 && lower_ascii(#[trigger] views(installed@)[k]) == x;
                        if k == i {
                            assert(lower@ == x);
                        }
                    }
                }
            }
        }
        i = i + 1;
    }
    sort_dedup_strings(acc)
}

} // verus!
