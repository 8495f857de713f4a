//! `rig roles`: each role with its shell, features and package sets. The
//! caller loads the roles and the package sets; this module checks the
//! arguments and decides every line.
use vstd::prelude::*;
use crate::text::append_lines;
use crate::ui::{kv_line, dim_line, item2_line};
use crate::error::{msg_text, RigError};
use crate::packages::{packages_for_os, spec_packages_for_os, PackageSetContents};
use crate::apply::plan::shell_name;
use crate::schema::host::ShellKind;
use crate::schema::role::{OsKind, Role, RoleFeatures};
use crate::text::{concat2, concat3, join as join_text, join_strings, owned, push_str, str_eq, views};
use crate::ui::{
    empty, item, item2, kv, section, spec_field_line, spec_tidy, spec_wrap, title, Style, BOLD, CYAN,
    DIM, YELLOW,
};

verus! {

/// `on` or `off`.
pub open spec fn spec_yn(v: bool) -> Seq<char> {
    if v {
        "on"@
    } else {
        "off"@
    }
}

pub fn yn(v: bool) -> (r: &'static str)
    ensures
        r@ == spec_yn(v),
{
    if v {
        "on"
    } else {
        "off"
    }
}

/// The `--os` filter: none, macOS or Linux; any other name is an error.
pub fn parse_os_filter(s: Option<&str>) -> (r: Result<Option<OsKind>, RigError>)
    ensures
        match s {
            None => r == Ok::<Option<OsKind>, RigError>(None),
            Some(x) => if x@ == "macos"@ {
                r == Ok::<Option<OsKind>, RigError>(Some(OsKind::Macos))
            } else if x@ == "linux"@ {
                r == Ok::<Option<OsKind>, RigError>(Some(OsKind::Linux))
            } else {
                r matches Err(e) && msg_text(e) == Some("unknown --os `"@ + x@ + "` (want: macos, linux)"@)
            },
        },
{
    match s {
        None => Ok(None),
        Some(x) => {
            if str_eq(x, "macos") {
                Ok(Some(OsKind::Macos))
            } else if str_eq(x, "linux") {
                Ok(Some(OsKind::Linux))
            } else {
                Err(RigError::Msg(concat3("unknown --os `", x, "` (want: macos, linux)")))
            }
        },
    }
}

/// The roles to show: the one asked for, which must be among `all`, or all.
pub fn role_names_to_show(name: Option<&str>, all: &Vec<String>) -> (r: Result<Vec<String>, RigError>)
    ensures
        name is None ==> (r matches Ok(v) && views(v@) == views(all@)),
        name is Some && views(all@).contains(name->0@) ==> (r matches Ok(v) && views(v@) == seq![name->0@]),
        name is Some && !views(all@).contains(name->0@) ==> (r matches Err(e) && msg_text(e) == Some(
            "unknown role `"@ + name->0@ + "` (have: "@ + join_text(views(all@), ", "@) + ")"@,
        )),
{
    match name {
        None => {
            let mut v: Vec<String> = Vec::new();
            let mut i: usize = 0;
            while i < all.len()
                invariant
                    i <= all.len(),
                    views(v@) == views(all@).subrange(0, i as int),
                decreases all.len() - i,
            {
                let ghost b = views(v@);
                v.push(owned(all[i].as_str()));
                assert(views(v@) =~= b.push(views(all@)[i as int]));
                assert(views(v@) =~= views(all@).subrange(0, i + 1));
                i = i + 1;
            }
            assert(views(all@).subrange(0, all.len() as int) =~= views(all@));
            Ok(v)
        },
        Some(n) => {
            let mut i: usize = 0;
            while i < all.len()
                invariant
                    i <= all.len(),
                    name == Some(n),
                    forall|k: int| 0 <= k < i ==> views(all@)[k] != n@,
                decreases all.len() - i,
            {
                if str_eq(all[i].as_str(), n) {
                    assert(views(all@)[i as int] == n@);
                    assert(views(all@).contains(n@));
                    let mut v: Vec<String> = Vec::new();
                    v.push(owned(n));
                    assert(views(v@) =~= seq![n@]);
                    return Ok(v);
                }
                i = i + 1;
            }
            let j = join_strings(all.as_slice(), ", ");
            let mut m = concat3("unknown role `", n, "` (have: ");
            push_str(&mut m, j.as_str());
            push_str(&mut m, ")");
            assert(!views(all@).contains(n@));
            Err(RigError::Msg(m))
        },
    }
}

/// The head of the roles listing: title, root, a blank line.
pub open spec fn spec_roles_header(root: Seq<char>, st: Style) -> Seq<Seq<char>> {
    seq![spec_wrap(st.color, BOLD@ + CYAN@, "roles"@), kv_line(st, "root"@, root), seq![]]
}

pub fn roles_header(root: &str, st: &Style) -> (r: Vec<String>)
    ensures
        views(r@) == spec_roles_header(root@, *st),
{
    let mut r: Vec<String> = Vec::new();
    r.push(title("roles", false, st));
    r.push(kv("root", root, st));
    r.push(String::new());
    proof {
        reveal_strlit("");
    }
    assert(views(r@) =~= spec_roles_header(root@, *st));
    r
}

/// The lines of one package set for an OS: its name, then its packages or
/// that it is empty.
pub open spec fn set_lines(name: Seq<char>, pkgs: Seq<Seq<char>>, st: Style) -> Seq<Seq<char>> {
    seq![dim_line(st, "set  "@ + name)] + (if pkgs.len() == 0 {
        seq![item2_line(st, "empty or missing file"@)]
    } else {
        pkgs.map_values(|p: Seq<char>| item2_line(st, p))
    })
}

pub open spec fn sets_upto(names: Seq<Seq<char>>, sets: Seq<PackageSetContents>, os: OsKind, st: Style, n: int) -> Seq<
    Seq<char>,
>
    decreases n,
{
    if n <= 0 {
        seq![]
    } else {
        sets_upto(names, sets, os, st, n - 1) + set_lines(
            names[n - 1],
            views(spec_packages_for_os(sets[n - 1], os)),
            st,
        )
    }
}

/// The packages of a role's sets for one OS (`none` without sets).
pub open spec fn spec_print_packages(names: Seq<Seq<char>>, sets: Seq<PackageSetContents>, os: OsKind, st: Style) -> Seq<
    Seq<char>,
> {
    if names.len() == 0 {
        seq![dim_line(st, "none"@)]
    } else {
        sets_upto(names, sets, os, st, names.len() as int)
    }
}

/// The package lines of sets `names` (their contents in `sets`, in order) for `os`.
pub fn print_packages(names: &[String], sets: &[PackageSetContents], os: OsKind, st: &Style) -> (r: Vec<String>)
    requires
        names@.len() == sets@.len(),
    ensures
        views(r@) == spec_print_packages(views(names@), sets@, os, *st),
{
    let mut r: Vec<String> = Vec::new();
    if names.len() == 0 {
        r.push(item("none", st));
        assert(views(r@) =~= spec_print_packages(views(names@), sets@, os, *st));
        return r;
    }
    let mut i: usize = 0;
    while i < names.len()
        invariant
            i <= names.len(),
            names@.len() == sets@.len(),
            views(r@) == sets_upto(views(names@), sets@, os, *st, i as int),
        decreases names.len() - i,
    {
        let ghost b = views(r@);
        let head = concat2("set  ", names[i].as_str());
        r.push(item(head.as_str(), st));
        let pkgs = packages_for_os(&sets[i], os);
        let ghost pv = views(pkgs@);
        if pkgs.len() == 0 {
            r.push(item2("empty or missing file", st));
            assert(pv.len() == 0);
        } else {
            let ghost h = views(r@);
            let mut j: usize = 0;
            while j < pkgs.len()
                invariant
                    j <= pkgs.len(),
                    pv == views(pkgs@),
                    views(r@) == h + pv.map_values(|p: Seq<char>| item2_line(*st, p)).subrange(0, j as int),
                decreases pkgs.len() - j,
            {
                let ghost b2 = views(r@);
                r.push(item2(pkgs[j].as_str(), st));
                assert(views(r@) =~= b2.push(item2_line(*st, pv[j as int])));
                assert(views(r@) =~= h + pv.map_values(|p: Seq<char>| item2_line(*st, p)).subrange(0, j + 1));
                j = j + 1;
            }
            assert(pv.map_values(|p: Seq<char>| item2_line(*st, p)).subrange(0, pkgs.len() as int) =~= pv.map_values(
                |p: Seq<char>| item2_line(*st, p),
            ));
        }
        assert(views(names@)[i as int] == names@[i as int]@);
        assert(views(r@) =~= b + set_lines(views(names@)[i as int], views(spec_packages_for_os(sets@[i as int], os)), *st));
        i = i + 1;
    }
    r
}

/// The feature flags of a role in one line.
pub open spec fn flags_line(f: RoleFeatures) -> Seq<char> {
    "gui="@ + spec_yn(f.gui) + "  cursor="@ + spec_yn(f.cursor) + "  remote_login="@ + spec_yn(f.remote_login)
        + "  tailscale="@ + spec_yn(f.tailscale) + "  thunderbolt="@ + spec_yn(f.thunderbolt)
        + "  stay_awake="@ + spec_yn(f.stay_awake)
}

/// A line for each feature that is on, in order.
pub open spec fn feature_notes(f: RoleFeatures, st: Style) -> Seq<Seq<char>> {
    (if f.gui {
        seq![item2_line(st, "GUI apps / workstation extras"@)]
    } else {
        seq![]
    }) + (if f.cursor {
        seq![item2_line(st, "Cursor user settings link"@)]
    } else {
        seq![]
    }) + (if f.remote_login {
        seq![item2_line(st, "remote login / sshd"@)]
    } else {
        seq![]
    }) + (if f.tailscale {
        seq![item2_line(st, "Tailscale"@)]
    } else {
        seq![]
    }) + (if f.thunderbolt {
        seq![item2_line(st, "Thunderbolt bridge0 when [[ssh]] has link=thunderbolt"@)]
    } else {
        seq![]
    }) + (if f.stay_awake {
        seq![item2_line(st, "stay awake (macOS pmset -a / Linux logind)"@)]
    } else {
        seq![]
    })
}

fn push_when(r: &mut Vec<String>, on: bool, text: &str, st: &Style)
    ensures
        views(final(r)@) == views(old(r)@) + (if on {
            seq![item2_line(*st, text@)]
        } else {
            seq![]
        }),
{
    let ghost b = views(r@);
    if on {
        r.push(item2(text, st));
        assert(views(r@) =~= b + seq![item2_line(*st, text@)]);
    } else {
        assert(views(r@) =~= b + Seq::<Seq<char>>::empty());
    }
}

fn flags_text(f: &RoleFeatures) -> (r: String)
    ensures
        r@ == flags_line(*f),
{
    let mut s = concat2("gui=", yn(f.gui));
    push_str(&mut s, "  cursor=");
    push_str(&mut s, yn(f.cursor));
    push_str(&mut s, "  remote_login=");
    push_str(&mut s, yn(f.remote_login));
    push_str(&mut s, "  tailscale=");
    push_str(&mut s, yn(f.tailscale));
    push_str(&mut s, "  thunderbolt=");
    push_str(&mut s, yn(f.thunderbolt));
    push_str(&mut s, "  stay_awake=");
    push_str(&mut s, yn(f.stay_awake));
    s
}

/// The name, description and shell of a role.
pub open spec fn role_intro(name: Seq<char>, role: Role, st: Style) -> Seq<Seq<char>> {
    seq![kv_line(st, "role"@, name), dim_line(st, role.description@)] + (match role.default_shell {
        Some(sh) => seq![
            kv_line(st, "shell"@, shell_name(sh)),
            dim_line(st, "templates  shell/common + shell/"@ + shell_name(sh)),
        ],
        None => seq![kv_line(st, "shell"@, "detect from $SHELL"@)],
    })
}

/// The features of a role: a heading, the flags, a line per feature on.
pub open spec fn role_features(f: RoleFeatures, st: Style) -> Seq<Seq<char>> {
    seq!["  "@ + spec_wrap(st.color, DIM@, "features"@), dim_line(st, flags_line(f))] + feature_notes(f, st)
}

/// The description part of a role: name, description, shell, features,
/// package set names.
pub open spec fn role_head(name: Seq<char>, role: Role, st: Style) -> Seq<Seq<char>> {
    role_intro(name, role, st) + role_features(role.features, st) + seq![
        kv_line(st, "packages"@, join_text(views(role.packages@), ", "@)),
    ]
}

fn print_role_intro(name: &str, role: &Role, st: &Style) -> (r: Vec<String>)
    ensures
        views(r@) == role_intro(name@, *role, *st),
{
    let mut r: Vec<String> = Vec::new();
    r.push(kv("role", name, st));
    r.push(item(role.description.as_str(), st));
    let ghost p0 = views(r@);
    match role.default_shell {
        Some(sh) => {
            r.push(kv("shell", sh.as_str(), st));
            let t = concat2("templates  shell/common + shell/", sh.as_str());
            r.push(item(t.as_str(), st));
        },
        None => {
            r.push(kv("shell", "detect from $SHELL", st));
        },
    }
    assert(views(r@) =~= role_intro(name@, *role, *st));
    r
}

fn print_role_features(f: &RoleFeatures, st: &Style) -> (r: Vec<String>)
    ensures
        views(r@) == role_features(*f, *st),
{
    let mut r: Vec<String> = Vec::new();
    r.push(section("features", st));
    let fl = flags_text(f);
    r.push(item(fl.as_str(), st));
    let ghost p2 = views(r@);
    push_when(&mut r, f.gui, "GUI apps / workstation extras", st);
    push_when(&mut r, f.cursor, "Cursor user settings link", st);
    push_when(&mut r, f.remote_login, "remote login / sshd", st);
    push_when(&mut r, f.tailscale, "Tailscale", st);
    push_when(&mut r, f.thunderbolt, "Thunderbolt bridge0 when [[ssh]] has link=thunderbolt", st);
    push_when(&mut r, f.stay_awake, "stay awake (macOS pmset -a / Linux logind)", st);
    assert(views(r@) =~= role_features(*f, *st));
    r
}

fn print_role_head(name: &str, role: &Role, st: &Style) -> (r: Vec<String>)
    ensures
        views(r@) == role_head(name@, *role, *st),
{
    let mut r = print_role_intro(name, role, st);
    append_lines(&mut r, print_role_features(&role.features, st));
    let ghost p3 = views(r@);
    let pk = join_strings(role.packages.as_slice(), ", ");
    r.push(kv("packages", pk.as_str(), st));
    assert(views(r@) =~= p3.push(kv_line(*st, "packages"@, join_text(views(role.packages@), ", "@))));
    r
}

/// The package part of a role for one OS, when the filter keeps it.
pub open spec fn role_os_part(
    names: Seq<Seq<char>>,
    sets: Seq<PackageSetContents>,
    os_filter: Option<OsKind>,
    os: OsKind,
    heading: Seq<char>,
    st: Style,
) -> Seq<Seq<char>> {
    if os_filter is None || os_filter == Some(os) {
        seq!["  "@ + spec_wrap(st.color, DIM@, heading)] + spec_print_packages(names, sets, os, st)
    } else {
        seq![]
    }
}

fn print_role_os(names: &[String], sets: &[PackageSetContents], os_filter: Option<OsKind>, os: OsKind, heading: &str, st: &Style) -> (r: Vec<
    String,
>)
    requires
        names@.len() == sets@.len(),
    ensures
        views(r@) == role_os_part(views(names@), sets@, os_filter, os, heading@, *st),
{
    let mut r: Vec<String> = Vec::new();
    let show = match os_filter {
        None => true,
        Some(o) => o == os,
    };
    if show {
        r.push(section(heading, st));
        append_lines(&mut r, print_packages(names, sets, os, st));
    } else {
        assert(views(r@) =~= Seq::<Seq<char>>::empty());
    }
    r
}

/// One role: its name and description, its shell, its features, its
/// package sets, then the packages for each OS the filter keeps.
pub open spec fn spec_print_role(
    name: Seq<char>,
    role: Role,
    sets: Seq<PackageSetContents>,
    os_filter: Option<OsKind>,
    st: Style,
) -> Seq<Seq<char>> {
    role_head(name, role, st) + role_os_part(views(role.packages@), sets, os_filter, OsKind::Macos, "brew  macos"@, st)
        + role_os_part(views(role.packages@), sets, os_filter, OsKind::Linux, "apt  linux"@, st)
}

/// The lines of role `name`, whose package sets' contents are `sets` in the
/// role's order, for the OSes that `os_filter` keeps.
pub fn print_role(name: &str, role: &Role, sets: &Vec<PackageSetContents>, os_filter: Option<OsKind>, st: &Style) -> (r: Vec<
    String,
>)
    requires
        sets@.len() == role.packages@.len(),
    ensures
        views(r@) == spec_print_role(name@, *role, sets@, os_filter, *st),
{
    let mut r = print_role_head(name, role, st);
    append_lines(&mut r, print_role_os(role.packages.as_slice(), sets.as_slice(), os_filter, OsKind::Macos, "brew  macos", st));
    append_lines(&mut r, print_role_os(role.packages.as_slice(), sets.as_slice(), os_filter, OsKind::Linux, "apt  linux", st));
    r
}

/// What `rig roles` shows when there is no role.
pub fn no_roles(st: &Style) -> (r: String)
    ensures
        r@ == dim_line(*st, "no roles in roles/"@),
{
    empty("no roles in roles/", st)
}

} // verus!
