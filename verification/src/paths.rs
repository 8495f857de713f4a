//! Where rig keeps its data: the product root, the host inventory and state.
use vstd::prelude::*;
use crate::schema::host::spec_detect_os;
use crate::schema::role::{os_name, OsKind};
use crate::schema::{detect_os, is_toml_file, is_toml_name};
use crate::text::{
    chars_eq, chars_of, concat2, concat3, ends_with, ends_with_chars, owned, split_acc, split_char, split_chars,
    starts_with, starts_with_chars, views,
};
use crate::error::{msg_text, RigError};
use crate::ui::{data_hint, spec_data_hint, Style};

verus! {

/// `Path::join` for a relative or absolute component: an absolute `rel`
/// replaces `base`; otherwise one `/` separates them (none after a trailing
/// `/` or an empty base).
pub open spec fn join_path(base: Seq<char>, rel: Seq<char>) -> Seq<char> {
    if starts_with(rel, "/"@) {
        rel
    } else if base.len() == 0 || ends_with(base, "/"@) {
        base + rel
    } else {
        base + "/"@ + rel
    }
}

/// `base.join(rel)` on `/`-separated paths.
pub fn join(base: &str, rel: &str) -> (out: String)
    ensures
        out@ == join_path(base@, rel@),
{
    let r = chars_of(rel);
    let b = chars_of(base);
    let slash = chars_of("/");
    if starts_with_chars(r.as_slice(), slash.as_slice()) {
        owned(rel)
    } else if b.len() == 0 || ends_with_chars(b.as_slice(), slash.as_slice()) {
        concat2(base, rel)
    } else {
        concat3(base, "/", rel)
    }
}

/// The normal components of a path split at `/`: empty pieces (repeated or
/// trailing separators) and `.` pieces drop out.
pub open spec fn path_pieces(ps: Seq<Seq<char>>) -> Seq<Seq<char>>
    decreases ps.len(),
{
    if ps.len() == 0 {
        seq![]
    } else {
        let rest = path_pieces(ps.drop_last());
        let p = ps.last();
        if p.len() == 0 || p == "."@ {
            rest
        } else {
            rest.push(p)
        }
    }
}

/// `Path::components`: whether the path is absolute, whether it starts with a
/// `.` component, and its normal components.
pub open spec fn path_components(s: Seq<char>) -> (bool, bool, Seq<Seq<char>>) {
    let absolute = starts_with(s, "/"@);
    (absolute, !absolute && (s == "."@ || starts_with(s, "./"@)), path_pieces(split_char(s, '/')))
}

/// `Path == Path`: the two paths have the same components.
pub open spec fn same_path(a: Seq<char>, b: Seq<char>) -> bool {
    path_components(a) == path_components(b)
}

fn pieces_of(s: &[char]) -> (out: Vec<Vec<char>>)
    ensures
        out@.map_values(|l: Vec<char>| l@) == path_pieces(split_char(s@, '/')),
{
    let ps = split_chars(s, '/');
    let ghost pv = ps@.map_values(|l: Vec<char>| l@);
    let dot = chars_of(".");
    let mut out: Vec<Vec<char>> = Vec::new();
    let mut i: usize = 0;
    assert(pv.take(0) =~= Seq::<Seq<char>>::empty());
    while i < ps.len()
        invariant
            i <= ps.len(),
            pv == ps@.map_values(|l: Vec<char>| l@),
            dot@ == "."@,
            out@.map_values(|l: Vec<char>| l@) == path_pieces(pv.take(i as int)),
        decreases ps.len() - i,
    {
        let ghost before = out@.map_values(|l: Vec<char>| l@);
        assert(pv.take(i as int + 1).drop_last() =~= pv.take(i as int));
        assert(pv.take(i as int + 1).last() == ps[i as int]@);
        let p = &ps[i];
        if p.len() != 0 && !chars_eq(p.as_slice(), dot.as_slice()) {
            out.push(p.clone());
            assert(out@.map_values(|l: Vec<char>| l@) =~= before.push(pv[i as int]));
        }
        i = i + 1;
    }
    assert(pv.take(ps.len() as int) =~= pv);
    out
}

fn pieces_eq(a: &Vec<Vec<char>>, b: &Vec<Vec<char>>) -> (r: bool)
    ensures
        r == (a@.map_values(|l: Vec<char>| l@) == b@.map_values(|l: Vec<char>| l@)),
{
    let ghost av = a@.map_values(|l: Vec<char>| l@);
    let ghost bv = b@.map_values(|l: Vec<char>| l@);
    if a.len() != b.len() {
        assert(av.len() != bv.len());
        return false;
    }
    let mut i: usize = 0;
    while i < a.len()
        invariant
            i <= a.len(),
            a.len() == b.len(),
            av == a@.map_values(|l: Vec<char>| l@),
            bv == b@.map_values(|l: Vec<char>| l@),
            forall|k: int| 0 <= k < i ==> av[k] == bv[k],
        decreases a.len() - i,
    {
        if !chars_eq(a[i].as_slice(), b[i].as_slice()) {
            assert(av[i as int] != bv[i as int]);
            return false;
        }
        i = i + 1;
    }
    assert(av =~= bv);
    true
}

/// Whether two paths name the same place as `Path` compares them, component
/// by component (no file system lookup).
pub fn paths_equal(a: &str, b: &str) -> (r: bool)
    ensures
        r == same_path(a@, b@),
{
    proof {
        reveal_strlit("/");
        reveal_strlit(".");
        reveal_strlit("./");
    }
    let ac = chars_of(a);
    let bc = chars_of(b);
    let slash = chars_of("/");
    let dot = chars_of(".");
    let dot_slash = chars_of("./");
    let a_abs = starts_with_chars(ac.as_slice(), slash.as_slice());
    let b_abs = starts_with_chars(bc.as_slice(), slash.as_slice());
    let a_cur = !a_abs && (chars_eq(ac.as_slice(), dot.as_slice()) || starts_with_chars(
        ac.as_slice(),
        dot_slash.as_slice(),
    ));
    let b_cur = !b_abs && (chars_eq(bc.as_slice(), dot.as_slice()) || starts_with_chars(
        bc.as_slice(),
        dot_slash.as_slice(),
    ));
    if a_abs != b_abs || a_cur != b_cur {
        return false;
    }
    let ap = pieces_of(ac.as_slice());
    let bp = pieces_of(bc.as_slice());
    pieces_eq(&ap, &bp)
}

/// The components of a path as tokens: `/` for the root, `.` for a leading
/// current-directory component, then the normal components.
pub open spec fn path_tokens(s: Seq<char>) -> Seq<Seq<char>> {
    let (absolute, cur, pieces) = path_components(s);
    (if absolute {
        seq!["/"@]
    } else {
        seq![]
    }) + (if cur {
        seq!["."@]
    } else {
        seq![]
    }) + pieces
}

/// `Path::starts_with`: the components of `base` begin the components of `s`.
pub open spec fn path_has_prefix(s: Seq<char>, base: Seq<char>) -> bool {
    path_tokens(base).len() <= path_tokens(s).len() && path_tokens(s).subrange(
        0,
        path_tokens(base).len() as int,
    ) == path_tokens(base)
}

fn tokens_of(s: &str) -> (out: Vec<Vec<char>>)
    ensures
        out@.map_values(|l: Vec<char>| l@) == path_tokens(s@),
{
    proof {
        reveal_strlit("/");
        reveal_strlit(".");
        reveal_strlit("./");
    }
    let c = chars_of(s);
    let slash = chars_of("/");
    let dot = chars_of(".");
    let dot_slash = chars_of("./");
    let absolute = starts_with_chars(c.as_slice(), slash.as_slice());
    let cur = !absolute && (chars_eq(c.as_slice(), dot.as_slice()) || starts_with_chars(
        c.as_slice(),
        dot_slash.as_slice(),
    ));
    let pieces = pieces_of(c.as_slice());
    let mut out: Vec<Vec<char>> = Vec::new();
    if absolute {
        out.push(slash);
    }
    if cur {
        out.push(dot);
    }
    let ghost head = out@.map_values(|l: Vec<char>| l@);
    assert(head =~= (if absolute {
        seq!["/"@]
    } else {
        seq![]
    }) + (if cur {
        seq!["."@]
    } else {
        seq![]
    }));
    let ghost pv = pieces@.map_values(|l: Vec<char>| l@);
    let mut i: usize = 0;
    while i < pieces.len()
        invariant
            i <= pieces.len(),
            pv == pieces@.map_values(|l: Vec<char>| l@),
            out@.map_values(|l: Vec<char>| l@) == head + pv.take(i as int),
        decreases pieces.len() - i,
    {
        let ghost before = out@.map_values(|l: Vec<char>| l@);
        let x = pieces[i].clone();
        assert(x@ =~= pv[i as int]);
        out.push(x);
        assert(out@.map_values(|l: Vec<char>| l@) =~= before.push(pv[i as int]));
        assert(head + pv.take(i as int + 1) =~= (head + pv.take(i as int)).push(pv[i as int]));
        i = i + 1;
    }
    assert(pv.take(pieces.len() as int) =~= pv);
    out
}

/// Whether `s` lies under `base`, as `Path::starts_with` decides it.
pub fn path_starts_with(s: &str, base: &str) -> (r: bool)
    ensures
        r == path_has_prefix(s@, base@),
{
    let a = tokens_of(s);
    let b = tokens_of(base);
    let ghost av = a@.map_values(|l: Vec<char>| l@);
    let ghost bv = b@.map_values(|l: Vec<char>| l@);
    if b.len() > a.len() {
        return false;
    }
    let mut i: usize = 0;
    while i < b.len()
        invariant
            i <= b.len() <= a.len(),
            av == a@.map_values(|l: Vec<char>| l@),
            bv == b@.map_values(|l: Vec<char>| l@),
            av == path_tokens(s@),
            bv == path_tokens(base@),
            forall|k: int| 0 <= k < i ==> av[k] == bv[k],
        decreases b.len() - i,
    {
        if !chars_eq(a[i].as_slice(), b[i].as_slice()) {
            assert(av.subrange(0, bv.len() as int)[i as int] != bv[i as int]);
            return false;
        }
        i = i + 1;
    }
    assert(av.subrange(0, bv.len() as int) =~= bv);
    true
}

/// Splitting after a prefix is splitting the rest.
proof fn lemma_split_shift(p: Seq<char>, b: Seq<char>, c: char, j: int, st: int)
    requires
        0 <= st <= j <= b.len(),
    ensures
        split_acc(p + b, c, p.len() + j, p.len() + st) == split_acc(b, c, j, st),
    decreases b.len() - j,
{
    let s = p + b;
    if j >= b.len() {
        assert(s.subrange(p.len() + st, s.len() as int) =~= b.subrange(st, b.len() as int));
    } else {
        assert(s[p.len() + j] == b[j]);
        if b[j] == c {
            assert(s.subrange(p.len() + st, p.len() + j) =~= b.subrange(st, j));
            lemma_split_shift(p, b, c, j + 1, j + 1);
        } else {
            lemma_split_shift(p, b, c, j + 1, st);
        }
    }
}

proof fn lemma_split_at_sep(a: Seq<char>, b: Seq<char>, c: char, i: int, start: int)
    requires
        0 <= start <= i <= a.len(),
    ensures
        split_acc(a + seq![c] + b, c, i, start) == split_acc(a, c, i, start) + split_char(b, c),
    decreases a.len() - i,
{
    let s = a + seq![c] + b;
    let p = a + seq![c];
    assert(s =~= p + b);
    if i >= a.len() {
        assert(s[i] == c);
        assert(s.subrange(start, i) =~= a.subrange(start, a.len() as int));
        lemma_split_shift(p, b, c, 0, 0);
        assert(p.len() == i + 1);
    } else {
        assert(s[i] == a[i]);
        if a[i] == c {
            assert(s.subrange(start, i) =~= a.subrange(start, i));
            lemma_split_at_sep(a, b, c, i + 1, i + 1);
        } else {
            lemma_split_at_sep(a, b, c, i + 1, start);
        }
    }
}

/// Split at `c`, two texts joined by `c` give the pieces of each, in order.
proof fn lemma_split_joined(a: Seq<char>, b: Seq<char>, c: char)
    ensures
        split_char(a + seq![c] + b, c) == split_char(a, c) + split_char(b, c),
{
    lemma_split_at_sep(a, b, c, 0, 0);
}

proof fn lemma_pieces_concat(x: Seq<Seq<char>>, y: Seq<Seq<char>>)
    ensures
        path_pieces(x + y) == path_pieces(x) + path_pieces(y),
    decreases y.len(),
{
    if y.len() == 0 {
        assert(x + y =~= x);
        assert(path_pieces(x) + path_pieces(y) =~= path_pieces(x));
    } else {
        assert((x + y).drop_last() =~= x + y.drop_last());
        assert((x + y).last() == y.last());
        lemma_pieces_concat(x, y.drop_last());
        if y.last().len() == 0 || y.last() == "."@ {
        } else {
            assert(path_pieces(x) + path_pieces(y.drop_last()).push(y.last()) =~= (path_pieces(x)
                + path_pieces(y.drop_last())).push(y.last()));
        }
    }
}

/// The inventory is the entry `.rig-hosts` of the home directory: its last
/// component is `.rig-hosts` and the components before it are the home
/// directory's, so its parent is the home directory. No product root enters.
pub proof fn law_hosts_dir_under_home(home: Seq<char>)
    ensures
        path_tokens(join_path(home, ".rig-hosts"@)) == path_tokens(home).push(".rig-hosts"@),
        path_tokens(join_path(home, ".rig-hosts"@)).last() == ".rig-hosts"@,
        path_tokens(join_path(home, ".rig-hosts"@)).drop_last() == path_tokens(home),
{
    reveal_strlit(".rig-hosts");
    reveal_strlit("/");
    reveal_strlit(".");
    reveal_strlit("./");
    assert("/"@ =~= seq!['/']);
    assert("."@ =~= seq!['.']);
    assert("./"@ =~= seq!['.', '/']);
    let r = ".rig-hosts"@;
    let out = join_path(home, r);
    assert(!starts_with(r, "/"@)) by {
        assert(r.subrange(0, 1) != "/"@) by { assert(r.subrange(0, 1)[0] == '.'); }
    }
    assert(!(r == "."@));
    assert(!starts_with(r, "./"@)) by {
        assert(r.subrange(0, 2)[1] == 'r');
    }
    assert(split_char(r, '/') == seq![r]) by {
        assert forall|k: int| 0 <= k < r.len() implies r[k] != '/' by {}
        lemma_split_plain(r, '/', 0, 0);
        assert(r.subrange(0, r.len() as int) =~= r);
    }
    assert(path_pieces(seq![r]) == seq![r]) by {
        assert(seq![r].drop_last() =~= Seq::<Seq<char>>::empty());
        assert(path_pieces(Seq::<Seq<char>>::empty()) =~= Seq::<Seq<char>>::empty());
        assert(seq![r].last() == r);
        assert(r.len() > 0);
        assert(r != "."@) by { assert(r.len() != "."@.len()); }
        assert(Seq::<Seq<char>>::empty().push(r) =~= seq![r]);
    }
    if home.len() == 0 {
        assert(out == r);
        assert(home =~= Seq::<char>::empty());
        lemma_empty_pieces();
        assert(!starts_with(home, "/"@));
        assert(!starts_with(home, "./"@));
        assert(home != "."@);
        assert(path_tokens(out) =~= path_tokens(home).push(r));
    } else if ends_with(home, "/"@) {
        let h0 = home.drop_last();
        assert(home.last() == '/') by {
            assert(home.subrange(home.len() - 1, home.len() as int)[0] == home.last());
        }
        assert(home =~= h0 + seq!['/'] + Seq::<char>::empty());
        assert(out =~= h0 + seq!['/'] + r);
        lemma_split_joined(h0, Seq::<char>::empty(), '/');
        lemma_split_joined(h0, r, '/');
        lemma_empty_pieces();
        lemma_pieces_concat(split_char(h0, '/'), seq![Seq::<char>::empty()]);
        lemma_pieces_concat(split_char(h0, '/'), seq![r]);
        lemma_prefix_flags(home, r);
        assert(path_tokens(out) =~= path_tokens(home).push(r));
    } else {
        assert(out =~= home + seq!['/'] + r);
        lemma_split_joined(home, r, '/');
        lemma_pieces_concat(split_char(home, '/'), seq![r]);
        lemma_prefix_flags_sep(home, r);
        assert(path_tokens(out) =~= path_tokens(home).push(r));
    }
    assert(path_tokens(home).push(r).drop_last() =~= path_tokens(home));
}

proof fn lemma_split_plain(s: Seq<char>, c: char, i: int, start: int)
    requires
        0 <= start <= i <= s.len(),
        forall|k: int| 0 <= k < s.len() ==> s[k] != c,
    ensures
        split_acc(s, c, i, start) == seq![s.subrange(start, s.len() as int)],
    decreases s.len() - i,
{
    if i < s.len() {
        lemma_split_plain(s, c, i + 1, start);
    }
}

/// The empty path has one empty piece, which is no component.
proof fn lemma_empty_pieces()
    ensures
        split_char(Seq::<char>::empty(), '/') == seq![Seq::<char>::empty()],
        path_pieces(seq![Seq::<char>::empty()]) == Seq::<Seq<char>>::empty(),
{
    let e = Seq::<char>::empty();
    assert(split_char(e, '/') == split_acc(e, '/', 0, 0));
    assert(e.subrange(0, 0) =~= e);
    assert(split_acc(e, '/', 0, 0) =~= seq![e]);
    let one = seq![e];
    assert(one.drop_last() =~= Seq::<Seq<char>>::empty());
    assert(one.last() == e);
    assert(path_pieces(Seq::<Seq<char>>::empty()) =~= Seq::<Seq<char>>::empty());
}

proof fn lemma_starts_slash(s: Seq<char>)
    requires
        s.len() > 0,
        "/"@ == seq!['/'],
    ensures
        starts_with(s, "/"@) == (s[0] == '/'),
{
    if s[0] == '/' {
        assert(s.subrange(0, 1) =~= "/"@);
    }
    if starts_with(s, "/"@) {
        assert(s.subrange(0, 1)[0] == '/');
    }
}

/// A path ending in `/` and the same path with a name after it agree on
/// being absolute and on starting with `./`.
proof fn lemma_prefix_flags(home: Seq<char>, r: Seq<char>)
    requires
        home.len() > 0,
        ends_with(home, "/"@),
        r.len() > 0,
        r[0] == '.',
        r.len() > 1 && r[1] != '/',
        "/"@ == seq!['/'],
        "."@ == seq!['.'],
        "./"@ == seq!['.', '/'],
    ensures
        starts_with(home + r, "/"@) == starts_with(home, "/"@),
        (home + r == "."@ || starts_with(home + r, "./"@)) == (home == "."@ || starts_with(home, "./"@)),
{
    let s = home + r;
    assert(s[0] == home[0]);
    lemma_starts_slash(s);
    lemma_starts_slash(home);
    assert(home.last() == '/') by {
        assert(home.subrange(home.len() - 1, home.len() as int)[0] == home.last());
    }
    assert(home != "."@);
    assert(s != "."@) by { assert(s.len() >= 2); }
    if home.len() == 1 {
        assert(home[0] == '/');
        assert(!starts_with(s, "./"@)) by { assert(s.subrange(0, 2)[0] == '/'); }
        assert(!starts_with(home, "./"@));
    } else {
        assert(s[1] == home[1]);
        assert(starts_with(s, "./"@) == (s[0] == '.' && s[1] == '/')) by {
            if s[0] == '.' && s[1] == '/' {
                assert(s.subrange(0, 2) =~= "./"@);
            }
            if starts_with(s, "./"@) {
                assert(s.subrange(0, 2)[0] == '.' && s.subrange(0, 2)[1] == '/');
            }
        }
        assert(starts_with(home, "./"@) == (home[0] == '.' && home[1] == '/')) by {
            if home[0] == '.' && home[1] == '/' {
                assert(home.subrange(0, 2) =~= "./"@);
            }
            if starts_with(home, "./"@) {
                assert(home.subrange(0, 2)[0] == '.' && home.subrange(0, 2)[1] == '/');
            }
        }
    }
}

/// A path and the same path with `/` and a name after it agree on being
/// absolute and on starting with `./` (a bare `.` gains the `./`).
proof fn lemma_prefix_flags_sep(home: Seq<char>, r: Seq<char>)
    requires
        home.len() > 0,
        !ends_with(home, "/"@),
        r.len() > 0,
        "/"@ == seq!['/'],
        "."@ == seq!['.'],
        "./"@ == seq!['.', '/'],
    ensures
        starts_with(home + seq!['/'] + r, "/"@) == starts_with(home, "/"@),
        (home + seq!['/'] + r == "."@ || starts_with(home + seq!['/'] + r, "./"@)) == (home == "."@
            || starts_with(home, "./"@)),
{
    let s = home + seq!['/'] + r;
    assert(s[0] == home[0]);
    lemma_starts_slash(s);
    lemma_starts_slash(home);
    assert(s != "."@) by { assert(s.len() >= 2); }
    assert(starts_with(s, "./"@) == (s[0] == '.' && s[1] == '/')) by {
        if s[0] == '.' && s[1] == '/' {
            assert(s.subrange(0, 2) =~= "./"@);
        }
        if starts_with(s, "./"@) {
            assert(s.subrange(0, 2)[0] == '.' && s.subrange(0, 2)[1] == '/');
        }
    }
    if home.len() == 1 {
        assert(s[1] == '/');
        assert(!starts_with(home, "./"@));
        assert((home == "."@) == (home[0] == '.')) by {
            if home[0] == '.' {
                assert(home =~= "."@);
            }
        }
    } else {
        assert(s[1] == home[1]);
        assert(home != "."@);
        assert(starts_with(home, "./"@) == (home[0] == '.' && home[1] == '/')) by {
            if home[0] == '.' && home[1] == '/' {
                assert(home.subrange(0, 2) =~= "./"@);
            }
            if starts_with(home, "./"@) {
                assert(home.subrange(0, 2)[0] == '.' && home.subrange(0, 2)[1] == '/');
            }
        }
    }
}

/// Machine inventory (`~/.rig-hosts/*.toml`) under the home directory `home`.
/// Samples stay in `hosts/examples/`.
pub fn hosts_dir(home: &str) -> (out: String)
    ensures
        out@ == join_path(home@, ".rig-hosts"@),
{
    join(home, ".rig-hosts")
}

pub fn hosts_examples_dir(root: &str) -> (out: String)
    ensures
        out@ == join_path(join_path(root@, "hosts"@), "examples"@),
{
    let h = join(root, "hosts");
    join(h.as_str(), "examples")
}

pub fn roles_dir(root: &str) -> (out: String)
    ensures
        out@ == join_path(root@, "roles"@),
{
    join(root, "roles")
}

pub fn packages_dir(root: &str) -> (out: String)
    ensures
        out@ == join_path(root@, "packages"@),
{
    join(root, "packages")
}

pub fn templates_dir(root: &str) -> (out: String)
    ensures
        out@ == join_path(root@, "templates"@),
{
    join(root, "templates")
}

/// A directory is a rig root when it holds `roles/` and `packages/` or `crates/`.
pub fn looks_like_root(has_roles: bool, has_packages: bool, has_crates: bool) -> (b: bool)
    ensures
        b == (has_roles && (has_packages || has_crates)),
{
    has_roles && (has_packages || has_crates)
}

/// `directories::ProjectDirs`, carried opaque.
#[verifier::external_type_specification]
#[verifier::external_body]
pub struct ExProjectDirs(directories::ProjectDirs);

/// `directories::ProjectDirs::from("dev", "rig", "rig")`: the per-user
/// directories of this application, when the home directory is known.
#[verifier::external_body]
pub(crate) fn project_dirs() -> Option<directories::ProjectDirs> {
    directories::ProjectDirs::from("dev", "rig", "rig")
}

/// `ProjectDirs::data_local_dir`, as text. The crate builds it by joining the
/// project path onto the platform's local data directory (under a home
/// directory that is never empty), so the text is never empty; which
/// directory it is depends on the environment and is left unsaid.
#[verifier::external_body]
pub(crate) fn data_local_dir(d: &directories::ProjectDirs) -> (r: String)
    ensures
        r@.len() > 0,
{
    d.data_local_dir().display().to_string()
}

/// `ProjectDirs::config_dir`, as text. The crate builds it by joining the
/// project path onto the platform's configuration directory (under a home
/// directory that is never empty), so the text is never empty; which
/// directory it is depends on the environment and is left unsaid.
#[verifier::external_body]
pub(crate) fn config_dir_of(d: &directories::ProjectDirs) -> (r: String)
    ensures
        r@.len() > 0,
{
    d.config_dir().display().to_string()
}

/// `name` under the local data directory, or `fallback` when the home
/// directory is unknown.
pub fn under_data_local(name: &str, fallback: &str) -> (out: String)
    ensures
        out@ == fallback@ || exists|dir: Seq<char>| out@ == #[trigger] join_path(dir, name@),
{
    match project_dirs() {
        Some(d) => {
            let dir = data_local_dir(&d);
            let out = join(dir.as_str(), name);
            assert(out@ == join_path(dir@, name@));
            out
        },
        None => owned(fallback),
    }
}

/// `state.json` under the local data directory (`.rig-state.json` without a home).
pub fn state_path() -> (out: String)
    ensures
        out@ == ".rig-state.json"@ || exists|dir: Seq<char>| out@ == #[trigger] join_path(
            dir,
            "state.json"@,
        ),
{
    under_data_local("state.json", ".rig-state.json")
}

/// What stands at `<root>/hosts`, where older releases kept the inventory.
pub enum LegacyHosts {
    Missing,
    Symlink,
    /// A directory, with the names of its entries in the order listed.
    Dir(Vec<String>),
    Other,
}

/// A file-system change of the inventory migration, done in order.
pub enum InventoryOp {
    Rename { from: String, to: String },
    CreateDir(String),
}

/// An inventory change as values.
pub enum InventoryStep {
    Rename(Seq<char>, Seq<char>),
    CreateDir(Seq<char>),
}

impl View for InventoryOp {
    type V = InventoryStep;

    open spec fn view(&self) -> InventoryStep {
        match self {
            InventoryOp::Rename { from, to } => InventoryStep::Rename(from@, to@),
            InventoryOp::CreateDir(d) => InventoryStep::CreateDir(d@),
        }
    }
}

pub open spec fn step_views(s: Seq<InventoryOp>) -> Seq<InventoryStep> {
    s.map_values(|o: InventoryOp| o@)
}

/// The moves of the `.toml` entries among the first `n` names.
pub open spec fn toml_moves(legacy: Seq<char>, dest: Seq<char>, names: Seq<Seq<char>>, n: int) -> Seq<
    InventoryStep,
>
    decreases n,
{
    if n <= 0 {
        seq![]
    } else {
        toml_moves(legacy, dest, names, n - 1) + (if is_toml_name(names[n - 1]) {
            seq![InventoryStep::Rename(join_path(legacy, names[n - 1]), join_path(dest, names[n - 1]))]
        } else {
            seq![]
        })
    }
}

/// The migration of a legacy inventory into `dest`: nothing when `dest`
/// exists; a legacy symlink is moved to `dest` and an empty directory left
/// in its place; from a legacy directory its `.toml` files move into
/// `dest`, created first when there is one; anything else stays.
pub open spec fn spec_migration(root: Seq<char>, dest: Seq<char>, dest_exists: bool, legacy: LegacyHosts) -> Seq<
    InventoryStep,
> {
    let from = join_path(root, "hosts"@);
    if dest_exists {
        seq![]
    } else {
        match legacy {
            LegacyHosts::Symlink => seq![InventoryStep::Rename(from, dest), InventoryStep::CreateDir(from)],
            LegacyHosts::Dir(names) => {
                let moves = toml_moves(from, dest, views(names@), names.len() as int);
                if moves.len() == 0 {
                    seq![]
                } else {
                    seq![InventoryStep::CreateDir(dest)] + moves
                }
            },
            _ => seq![],
        }
    }
}

/// The inventory directory under `home`, and the changes that move a
/// legacy `<root>/hosts` into it (given whether the directory exists and
/// what stands at `<root>/hosts`).
pub fn ensure_hosts_inventory(root: &str, home: &str, dest_exists: bool, legacy: &LegacyHosts) -> (r: (
    String,
    Vec<InventoryOp>,
))
    ensures
        r.0@ == join_path(home@, ".rig-hosts"@),
        step_views(r.1@) == spec_migration(root@, r.0@, dest_exists, *legacy),
{
    let dest = hosts_dir(home);
    let from = join(root, "hosts");
    let mut ops: Vec<InventoryOp> = Vec::new();
    if dest_exists {
        assert(step_views(ops@) =~= Seq::<InventoryStep>::empty());
        return (dest, ops);
    }
    match legacy {
        LegacyHosts::Symlink => {
            ops.push(InventoryOp::Rename { from: owned(from.as_str()), to: owned(dest.as_str()) });
            ops.push(InventoryOp::CreateDir(from));
            assert(step_views(ops@) =~= spec_migration(root@, dest@, dest_exists, *legacy));
        },
        LegacyHosts::Dir(names) => {
            let ghost nv = views(names@);
            let mut moves: Vec<InventoryOp> = Vec::new();
            let mut i: usize = 0;
            while i < names.len()
                invariant
                    i <= names.len(),
                    nv == views(names@),
                    step_views(moves@) == toml_moves(from@, dest@, nv, i as int),
                decreases names.len() - i,
            {
                let ghost before = step_views(moves@);
                let n = &names[i];
                if is_toml_file(n.as_str()) {
                    let a = join(from.as_str(), n.as_str());
                    let b = join(dest.as_str(), n.as_str());
                    moves.push(InventoryOp::Rename { from: a, to: b });
                    assert(step_views(moves@) =~= before.push(
                        InventoryStep::Rename(join_path(from@, nv[i as int]), join_path(dest@, nv[i as int])),
                    ));
                } else {
                    assert(step_views(moves@) =~= before + Seq::<InventoryStep>::empty());
                }
                assert(step_views(moves@) =~= toml_moves(from@, dest@, nv, i + 1));
                i = i + 1;
            }
            let ghost mv = step_views(moves@);
            assert(mv.len() == moves.len());
            if moves.len() > 0 {
                ops.push(InventoryOp::CreateDir(owned(dest.as_str())));
                ops.append(&mut moves);
                assert(step_views(ops@) =~= seq![InventoryStep::CreateDir(dest@)] + mv);
            } else {
                assert(step_views(ops@) =~= Seq::<InventoryStep>::empty());
            }
        },
        _ => {
            assert(step_views(ops@) =~= Seq::<InventoryStep>::empty());
        },
    }
    (dest, ops)
}

/// Where product data lives, for standard error (so piped standard output
/// stays clean): the lines of `data_hint` for `root` and this machine's OS.
pub fn eprint_data_hint(root: &str, target_os: &str, st: &Style) -> (r: Vec<String>)
    ensures
        views(r@) == spec_data_hint(root@, os_name(spec_detect_os(target_os@)), *st),
{
    let os = detect_os(target_os);
    data_hint(root, os.as_str(), st)
}

/// Where the unpacked product data lives: `product` under the local data
/// directory, or `.rig-product` when the home directory is unknown.
pub fn product_data_root() -> (out: String)
    ensures
        out@ == ".rig-product"@ || exists|dir: Seq<char>| out@ == #[trigger] join_path(dir, "product"@),
{
    under_data_local("product", ".rig-product")
}

/// Whether a root is the unpacked product data (then it is refreshed when
/// the binary is newer).
pub fn is_embedded_root(root: &str, product_root: &str) -> (b: bool)
    ensures
        b == same_path(root@, product_root@),
{
    paths_equal(root, product_root)
}

/// The embedded product data must be written again when its version stamp
/// is missing or (trimmed) differs from this binary's version, or when
/// `roles/` or `packages/` is missing.
pub fn embedded_refresh_needed(stamp: Option<&str>, version: &str, has_roles: bool, has_packages: bool) -> (b: bool)
    ensures
        b == (match stamp {
            Some(v) => crate::text::trim(v@) != version@,
            None => true,
        } || !(has_roles && has_packages)),
{
    let fresh = match stamp {
        Some(v) => {
            let t = crate::text::trim_str(v);
            !crate::text::str_eq(t.as_str(), version)
        },
        None => true,
    };
    fresh || !(has_roles && has_packages)
}

/// How the root is found.
pub enum RootChoice {
    /// Use this directory.
    Use(String),
    /// The directory given does not look like a rig root.
    Refused(RigError),
    /// Unpack the embedded product data and use it.
    Embedded,
}

/// The first candidate that looks like a rig root.
pub open spec fn first_root(c: Seq<(String, bool)>, i: int) -> int
    decreases c.len() - i,
{
    if i < 0 || i >= c.len() {
        c.len() as int
    } else if c[i].1 {
        i
    } else {
        first_root(c, i + 1)
    }
}

fn first_root_exec(c: &Vec<(String, bool)>) -> (k: usize)
    ensures
        k == first_root(c@, 0),
{
    let mut i: usize = 0;
    while i < c.len() && !c[i].1
        invariant
            i <= c.len(),
            first_root(c@, i as int) == first_root(c@, 0),
        decreases c.len() - i,
    {
        i = i + 1;
    }
    i
}

/// The root: the directory given, when it looks like a rig root (else an
/// error); else the first of the working directory and its ancestors that
/// does; else the first of the executable's ancestors that does; else the
/// embedded data. Each candidate comes with whether it holds `roles/` and
/// `packages/` or `crates/`.
pub fn discover_root(explicit: Option<(&str, bool)>, cwd_ancestors: &Vec<(String, bool)>, exe_ancestors: &Vec<(String, bool)>) -> (r:
    RootChoice)
    ensures
        match explicit {
            Some((p, looks)) => if looks {
                r matches RootChoice::Use(q) && q@ == p@
            } else {
                r matches RootChoice::Refused(e) && msg_text(e) == Some("path does not look like a rig root: "@ + p@)
            },
            None => if first_root(cwd_ancestors@, 0) < cwd_ancestors@.len() {
                r matches RootChoice::Use(q) && q@ == cwd_ancestors@[first_root(cwd_ancestors@, 0)].0@
            } else if first_root(exe_ancestors@, 0) < exe_ancestors@.len() {
                r matches RootChoice::Use(q) && q@ == exe_ancestors@[first_root(exe_ancestors@, 0)].0@
            } else {
                r is Embedded
            },
        },
{
    match explicit {
        Some((p, looks)) => {
            if looks {
                RootChoice::Use(owned(p))
            } else {
                RootChoice::Refused(RigError::Msg(concat2("path does not look like a rig root: ", p)))
            }
        },
        None => {
            let k = first_root_exec(cwd_ancestors);
            if k < cwd_ancestors.len() {
                return RootChoice::Use(owned(cwd_ancestors[k].0.as_str()));
            }
            let j = first_root_exec(exe_ancestors);
            if j < exe_ancestors.len() {
                return RootChoice::Use(owned(exe_ancestors[j].0.as_str()));
            }
            RootChoice::Embedded
        },
    }
}

} // verus!
