//! `rig status`: what this machine is, what rig knows of it, and what is
//! live. The caller reads the machine (fastfetch, `$SHELL --version`, files,
//! the state manifest, the live probes); this module decides every line.
use vstd::prelude::*;
use crate::text::append_lines;
use crate::ui::{kv_line, dim_line};
use crate::paths::{join, join_path, paths_equal, same_path};
use crate::schema::host::{spec_ssh_paths, spec_user_write_needed, user_write_needed};
use crate::schema::role::{os_name, OsKind, RoleFeatures};
use crate::schema::{file_name, file_name_of, short_host, short_host_exec, Host};
use crate::text::{
    chars_of, concat2, concat3, decimal, decimal_string, join as join_text, join_strings, lines,
    lines_of, lower_ascii, lower_ascii_str, next_char, next_char_exec, owned, push_str, str_eq,
    string_of, trim, trim_chars, views, words, words_of,
};
use crate::apply::inspect::LiveWanted;
use crate::apply::plan::merged_features;
use crate::apply::state::{entry_views, RigState};
use crate::schema::host::{opt_view, path_views};
use crate::schema::Role;
use crate::ui::{
    kv, kvc, note, section, spec_field_line, spec_tidy, spec_wrap, title, Style, BOLD, CYAN, DIM,
    YELLOW,
};

verus! {

// ---------------------------------------------------------------------------
// The machine section (fastfetch fields)
// ---------------------------------------------------------------------------

/// The status key for a fastfetch field name (any case).
pub open spec fn spec_machine_key(k: Seq<char>) -> Seq<char> {
    let l = lower_ascii(k);
    if l == "os"@ {
        "system"@
    } else if l == "host"@ {
        "model"@
    } else if l == "kernel"@ {
        "kernel"@
    } else if l == "uptime"@ {
        "uptime"@
    } else if l == "memory"@ {
        "memory"@
    } else if l == "shell"@ {
        "shell"@
    } else {
        "info"@
    }
}

pub fn machine_key(k: &str) -> (r: &'static str)
    ensures
        r@ == spec_machine_key(k@),
{
    let l = lower_ascii_str(k);
    let s = l.as_str();
    if str_eq(s, "os") {
        "system"
    } else if str_eq(s, "host") {
        "model"
    } else if str_eq(s, "kernel") {
        "kernel"
    } else if str_eq(s, "uptime") {
        "uptime"
    } else if str_eq(s, "memory") {
        "memory"
    } else if str_eq(s, "shell") {
        "shell"
    } else {
        "info"
    }
}

/// A `key: value` line of fastfetch (trimmed): its key part, when it has a colon.
pub open spec fn colon_at(t: Seq<char>) -> int {
    next_char(t, 0, ':')
}

/// The status line of one fastfetch line: none for a blank line, for an
/// empty value and for the shell (fastfetch sees rig, not the login shell);
/// a `who` line for a line without a colon.
pub open spec fn machine_entry(l: Seq<char>, st: Style) -> Seq<Seq<char>> {
    let t = trim(l);
    let c = colon_at(t);
    if t.len() == 0 {
        seq![]
    } else if c < t.len() {
        let k = t.subrange(0, c);
        let v = trim(t.subrange(c + 1, t.len() as int));
        if v.len() == 0 || lower_ascii(k) == "shell"@ {
            seq![]
        } else {
            seq![
                spec_field_line(st, DIM@, ""@, DIM@, spec_machine_key(trim(k)), YELLOW@, spec_tidy(v, st)),
            ]
        }
    } else {
        seq![spec_field_line(st, DIM@, ""@, DIM@, "who"@, YELLOW@, spec_tidy(t, st))]
    }
}

pub open spec fn machine_entries(ls: Seq<Seq<char>>, st: Style, n: int) -> Seq<Seq<char>>
    decreases n,
{
    if n <= 0 {
        seq![]
    } else {
        machine_entries(ls, st, n - 1) + machine_entry(ls[n - 1], st)
    }
}

/// Whether one of the first `n` lines is not blank.
pub open spec fn any_filled(ls: Seq<Seq<char>>, n: int) -> bool
    decreases n,
{
    if n <= 0 {
        false
    } else {
        any_filled(ls, n - 1) || trim(ls[n - 1]).len() > 0
    }
}

/// The machine section from fastfetch's output: a heading, then one line per
/// field; nothing when the output has no line (or fastfetch did not run).
pub open spec fn spec_print_machine(out: Option<Seq<char>>, st: Style) -> Seq<Seq<char>> {
    match out {
        None => seq![],
        Some(text) => {
            let ls = lines(text);
            if any_filled(ls, ls.len() as int) {
                seq!["  "@ + spec_wrap(st.color, DIM@, "machine"@)] + machine_entries(
                    ls,
                    st,
                    ls.len() as int,
                )
            } else {
                seq![]
            }
        },
    }
}

fn machine_entry_exec(l: &Vec<char>, st: &Style) -> (r: Option<String>)
    ensures
        match r {
            Some(s) => machine_entry(l@, *st) == seq![s@],
            None => machine_entry(l@, *st) == Seq::<Seq<char>>::empty(),
        },
{
    let t = trim_chars(l.as_slice());
    if t.len() == 0 {
        return None;
    }
    let c = next_char_exec(t.as_slice(), 0, ':');
    if c < t.len() {
        let k = string_of(crate::text::copy_range(t.as_slice(), 0, c).as_slice());
        let rest = crate::text::copy_range(t.as_slice(), c + 1, t.len());
        let v = trim_chars(rest.as_slice());
        let vs = string_of(v.as_slice());
        let lk = lower_ascii_str(k.as_str());
        if v.len() == 0 || str_eq(lk.as_str(), "shell") {
            return None;
        }
        let kt = trim_chars(chars_of(k.as_str()).as_slice());
        let kts = string_of(kt.as_slice());
        Some(kv(machine_key(kts.as_str()), vs.as_str(), st))
    } else {
        let ts = string_of(t.as_slice());
        Some(kv("who", ts.as_str(), st))
    }
}

/// The machine section, from fastfetch's standard output (`None` when it is
/// missing or failed). The caller adds the login shell after a non-empty one.
pub fn print_machine(out: Option<&str>, st: &Style) -> (r: Vec<String>)
    ensures
        views(r@) == spec_print_machine(
            match out {
                Some(s) => Some(s@),
                None => None,
            },
            *st,
        ),
{
    let mut r: Vec<String> = Vec::new();
    let text = match out {
        None => {
            assert(views(r@) =~= Seq::<Seq<char>>::empty());
            return r;
        },
        Some(t) => t,
    };
    let v = chars_of(text);
    let ls = lines_of(v.as_slice());
    let ghost lv = ls@.map_values(|l: Vec<char>| l@);
    let mut entries: Vec<String> = Vec::new();
    let mut any = false;
    let mut i: usize = 0;
    while i < ls.len()
        invariant
            i <= ls.len(),
            lv == ls@.map_values(|l: Vec<char>| l@),
            views(entries@) == machine_entries(lv, *st, i as int),
            any == any_filled(lv, i as int),
        decreases ls.len() - i,
    {
        assert(lv[i as int] == ls@[i as int]@);
        let ghost before = views(entries@);
        let t = trim_chars(ls[i].as_slice());
        if t.len() > 0 {
            any = true;
        }
        match machine_entry_exec(&ls[i], st) {
            Some(s) => {
                entries.push(s);
                assert(views(entries@) =~= before + machine_entry(lv[i as int], *st));
            },
            None => {
                assert(views(entries@) =~= before + machine_entry(lv[i as int], *st));
            },
        }
        i = i + 1;
    }
    if any {
        r.push(section("machine", st));
        let ghost h = views(r@);
        let mut e = entries;
        let ghost ev = views(e@);
        r.append(&mut e);
        assert(views(r@) =~= h + ev);
    } else {
        assert(views(r@) =~= Seq::<Seq<char>>::empty());
    }
    r
}

/// The login shell for the status: the first two words of the first line of
/// `$SHELL --version` (`zsh 5.9`), else the shell's file name (`?` when
/// `$SHELL` is unset).
pub open spec fn spec_login_shell(shell_env: Option<Seq<char>>, version_out: Option<Seq<char>>) -> Seq<char> {
    let path = match shell_env {
        Some(p) => p,
        None => "?"@,
    };
    let name = file_name(path);
    match version_out {
        None => name,
        Some(out) => {
            let ls = lines(out);
            let first = if ls.len() > 0 {
                trim(ls[0])
            } else {
                seq![]
            };
            if first.len() == 0 {
                name
            } else {
                let w = words(first);
                join_text(if w.len() > 2 {
                    w.subrange(0, 2)
                } else {
                    w
                }, " "@)
            }
        },
    }
}

pub fn login_shell(shell_env: Option<&str>, version_out: Option<&str>) -> (r: String)
    ensures
        r@ == spec_login_shell(
            match shell_env {
                Some(s) => Some(s@),
                None => None,
            },
            match version_out {
                Some(s) => Some(s@),
                None => None,
            },
        ),
{
    let path = match shell_env {
        Some(p) => p,
        None => "?",
    };
    let name = file_name_of(path);
    let out = match version_out {
        None => {
            return name;
        },
        Some(o) => o,
    };
    let ov = chars_of(out);
    let ls = lines_of(ov.as_slice());
    proof {
        assert(ls@.map_values(|l: Vec<char>| l@).len() == ls@.len());
    }
    let first = if ls.len() > 0 {
        proof {
            assert(ls@.map_values(|l: Vec<char>| l@)[0] == ls@[0]@);
        }
        trim_chars(ls[0].as_slice())
    } else {
        Vec::new()
    };
    if first.len() == 0 {
        return name;
    }
    let ws = words_of(first.as_slice());
    let ghost wv = ws@.map_values(|l: Vec<char>| l@);
    let mut parts: Vec<String> = Vec::new();
    let mut i: usize = 0;
    let n: usize = if ws.len() > 2 { 2 } else { ws.len() };
    while i < n
        invariant
            i <= n,
            n <= ws.len(),
            wv == ws@.map_values(|l: Vec<char>| l@),
            views(parts@) == wv.subrange(0, i as int),
        decreases n - i,
    {
        assert(wv[i as int] == ws@[i as int]@);
        let ghost before = views(parts@);
        let w = string_of(ws[i].as_slice());
        assert(w@ == wv[i as int]);
        parts.push(w);
        assert(views(parts@) =~= before.push(wv[i as int]));
        assert(views(parts@) =~= wv.subrange(0, i + 1));
        i = i + 1;
    }
    assert(wv.subrange(0, n as int) =~= (if wv.len() > 2 { wv.subrange(0, 2) } else { wv }));
    join_strings(parts.as_slice(), " ")
}

/// Where the root comes from: the unpacked embedded product data, or a
/// checkout given with `--root`.
pub open spec fn spec_root_kind(root: Seq<char>, product_root: Seq<char>) -> Seq<char> {
    if same_path(root, product_root) {
        "product data (embedded unpack)"@
    } else {
        "checkout / --root"@
    }
}

pub fn root_kind(root: &str, product_root: &str) -> (r: &'static str)
    ensures
        r@ == spec_root_kind(root@, product_root@),
{
    if paths_equal(root, product_root) {
        "product data (embedded unpack)"
    } else {
        "checkout / --root"
    }
}

/// Whether an entry name is one of the placeholders an empty overlay keeps.
pub open spec fn is_placeholder(name: Seq<char>) -> bool {
    name == ".gitkeep"@ || name == ".DS_Store"@
}

/// An overlay directory has files when one of its entries is not a placeholder.
pub fn overlay_has_files(names: &[String]) -> (b: bool)
    ensures
        b == exists|i: int| 0 <= i < names@.len() && !is_placeholder(#[trigger] names@[i]@),
{
    let mut i: usize = 0;
    while i < names.len()
        invariant
            i <= names.len(),
            forall|k: int| 0 <= k < i ==> is_placeholder(#[trigger] names@[k]@),
        decreases names.len() - i,
    {
        let n = names[i].as_str();
        if !str_eq(n, ".gitkeep") && !str_eq(n, ".DS_Store") {
            return true;
        }
        i = i + 1;
    }
    false
}

// ---------------------------------------------------------------------------
// Features wanted
// ---------------------------------------------------------------------------

/// The features in status order, each with its short name.
pub open spec fn feature_pairs(f: RoleFeatures) -> Seq<(Seq<char>, bool)> {
    seq![
        ("gui"@, f.gui),
        ("cursor"@, f.cursor),
        ("remote"@, f.remote_login),
        ("screen"@, f.screen_sharing),
        ("tailscale"@, f.tailscale),
        ("thunderbolt"@, f.thunderbolt),
        ("awake"@, f.stay_awake),
    ]
}

/// The names of the first `n` pairs whose flag is `on`.
pub open spec fn names_with(ps: Seq<(Seq<char>, bool)>, on: bool, n: int) -> Seq<Seq<char>>
    decreases n,
{
    if n <= 0 {
        seq![]
    } else {
        names_with(ps, on, n - 1) + (if ps[n - 1].1 == on {
            seq![ps[n - 1].0]
        } else {
            seq![]
        })
    }
}

/// The wanted features, then `off` and the others.
pub open spec fn spec_feature_summary(f: RoleFeatures) -> Seq<char> {
    let ps = feature_pairs(f);
    let on = names_with(ps, true, 7);
    let off = names_with(ps, false, 7);
    if off.len() == 0 {
        join_text(on, " "@)
    } else if on.len() == 0 {
        "off "@ + join_text(off, " "@)
    } else {
        join_text(on, " "@) + "  off "@ + join_text(off, " "@)
    }
}

pub fn feature_summary(f: &RoleFeatures) -> (r: String)
    ensures
        r@ == spec_feature_summary(*f),
{
    let names = ["gui", "cursor", "remote", "screen", "tailscale", "thunderbolt", "awake"];
    let flags = [f.gui, f.cursor, f.remote_login, f.screen_sharing, f.tailscale, f.thunderbolt, f.stay_awake];
    let ghost ps = feature_pairs(*f);
    proof {
        reveal_strlit("gui");
        reveal_strlit("cursor");
        reveal_strlit("remote");
        reveal_strlit("screen");
        reveal_strlit("tailscale");
        reveal_strlit("thunderbolt");
        reveal_strlit("awake");
    }
    assert(forall|k: int| 0 <= k < 7 ==> #[trigger] names@[k]@ == ps[k].0 && flags@[k] == ps[k].1);
    let mut on: Vec<String> = Vec::new();
    let mut off: Vec<String> = Vec::new();
    let mut i: usize = 0;
    while i < 7
        invariant
            i <= 7,
            names@.len() == 7,
            flags@.len() == 7,
            ps == feature_pairs(*f),
            forall|k: int| 0 <= k < 7 ==> #[trigger] names@[k]@ == ps[k].0 && flags@[k] == ps[k].1,
            views(on@) == names_with(ps, true, i as int),
            views(off@) == names_with(ps, false, i as int),
        decreases 7 - i,
    {
        let ghost a = views(on@);
        let ghost b = views(off@);
        assert(names@[i as int]@ == ps[i as int].0 && flags@[i as int] == ps[i as int].1);
        if flags[i] {
            on.push(owned(names[i]));
            assert(views(on@) =~= a.push(ps[i as int].0));
            assert(views(off@) =~= b + Seq::<Seq<char>>::empty());
        } else {
            off.push(owned(names[i]));
            assert(views(off@) =~= b.push(ps[i as int].0));
            assert(views(on@) =~= a + Seq::<Seq<char>>::empty());
        }
        i = i + 1;
    }
    let ghost onv = views(on@);
    let ghost offv = views(off@);
    assert(onv.len() == on.len() && offv.len() == off.len());
    let on_s = join_strings(on.as_slice(), " ");
    let off_s = join_strings(off.as_slice(), " ");
    if off.len() == 0 {
        on_s
    } else if on.len() == 0 {
        concat2("off ", off_s.as_str())
    } else {
        concat3(on_s.as_str(), "  off ", off_s.as_str())
    }
}

// ---------------------------------------------------------------------------
// SSH aliases
// ---------------------------------------------------------------------------

/// The aliases a config line declares: the words after a leading `Host`.
pub open spec fn line_aliases(l: Seq<char>) -> Seq<Seq<char>> {
    let w = words(l);
    if w.len() > 0 && w[0] == "Host"@ {
        w.subrange(1, w.len() as int)
    } else {
        seq![]
    }
}

pub open spec fn aliases_upto(ls: Seq<Seq<char>>, n: int) -> Seq<Seq<char>>
    decreases n,
{
    if n <= 0 {
        seq![]
    } else {
        aliases_upto(ls, n - 1) + line_aliases(ls[n - 1])
    }
}

/// The `Host` aliases of an SSH config text, in order.
pub open spec fn spec_host_aliases(conf: Seq<char>) -> Seq<Seq<char>> {
    aliases_upto(lines(conf), lines(conf).len() as int)
}

pub fn host_aliases(conf: &str) -> (r: Vec<String>)
    ensures
        views(r@) == spec_host_aliases(conf@),
{
    let v = chars_of(conf);
    let ls = lines_of(v.as_slice());
    let ghost lv = ls@.map_values(|l: Vec<char>| l@);
    let mut r: Vec<String> = Vec::new();
    let mut i: usize = 0;
    while i < ls.len()
        invariant
            i <= ls.len(),
            lv == ls@.map_values(|l: Vec<char>| l@),
            views(r@) == aliases_upto(lv, i as int),
        decreases ls.len() - i,
    {
        assert(lv[i as int] == ls@[i as int]@);
        let ws = words_of(ls[i].as_slice());
        let ghost wv = ws@.map_values(|l: Vec<char>| l@);
        let ghost before = views(r@);
        let host: [char; 4] = ['H', 'o', 's', 't'];
        if ws.len() > 0 && crate::text::chars_eq(ws[0].as_slice(), &host) {
            assert(wv[0] == ws@[0]@);
            proof {
                reveal_strlit("Host");
                assert(host@ =~= "Host"@);
            }
            let mut j: usize = 1;
            while j < ws.len()
                invariant
                    1 <= j <= ws.len(),
                    wv == ws@.map_values(|l: Vec<char>| l@),
                    views(r@) == before + wv.subrange(1, j as int),
                decreases ws.len() - j,
            {
                assert(wv[j as int] == ws@[j as int]@);
                let ghost b2 = views(r@);
                let a = string_of(ws[j].as_slice());
                r.push(a);
                assert(views(r@) =~= b2.push(wv[j as int]));
                assert(views(r@) =~= before + wv.subrange(1, j + 1));
                j = j + 1;
            }
            assert(wv.len() > 0 && wv[0] == "Host"@);
            assert(views(r@) =~= before + line_aliases(lv[i as int]));
        } else {
            proof {
                reveal_strlit("Host");
                if ws.len() > 0 {
                    assert(wv[0] == ws@[0]@);
                    if wv[0] == "Host"@ {
                        assert(ws@[0]@ =~= host@);
                    }
                }
            }
            assert(views(r@) =~= before + line_aliases(lv[i as int]));
        }
        i = i + 1;
    }
    r
}

/// Whether `x` names the detected machine itself: its name or one of its aliases.
pub open spec fn is_self_alias(x: Seq<char>, detected: Option<Host>) -> bool {
    match detected {
        Some(h) => x == h.name@ || exists|j: int|
            0 <= j < spec_ssh_paths(h).len() && #[trigger] spec_ssh_paths(h)[j].0 == x,
        None => false,
    }
}

/// The names of the detected machine: its aliases, then its name.
pub fn self_aliases(detected: Option<&Host>) -> (r: Vec<String>)
    ensures
        forall|x: Seq<char>|
            views(r@).contains(x) <==> is_self_alias(
                x,
                match detected {
                    Some(h) => Some(*h),
                    None => None,
                },
            ),
{
    let mut r: Vec<String> = Vec::new();
    let h = match detected {
        None => {
            assert(views(r@) =~= Seq::<Seq<char>>::empty());
            return r;
        },
        Some(h) => h,
    };
    let paths = h.ssh_paths();
    let ghost pv = path_views(paths@);
    let mut i: usize = 0;
    while i < paths.len()
        invariant
            i <= paths.len(),
            pv == path_views(paths@),
            pv == spec_ssh_paths(*h),
            views(r@) == Seq::new(i as nat, |k: int| pv[k].0),
        decreases paths.len() - i,
    {
        assert(pv[i as int] == paths@[i as int]@);
        let ghost before = views(r@);
        let a = owned(paths[i].alias.as_str());
        assert(a@ == pv[i as int].0);
        r.push(a);
        assert(views(r@) =~= before.push(pv[i as int].0));
        assert(views(r@) =~= Seq::new((i + 1) as nat, |k: int| pv[k].0));
        i = i + 1;
    }
    let ghost al = views(r@);
    r.push(owned(h.name.as_str()));
    assert(views(r@) =~= al.push(h.name@));
    assert forall|x: Seq<char>| views(r@).contains(x) <==> is_self_alias(x, Some(*h)) by {
        if views(r@).contains(x) {
            let k = choose|k: int| 0 <= k < views(r@).len() && views(r@)[k] == x;
            if k < pv.len() {
                assert(spec_ssh_paths(*h)[k].0 == x);
            }
        }
        if is_self_alias(x, Some(*h)) {
            if x == h.name@ {
                assert(views(r@)[pv.len() as int] == x);
            } else {
                let j = choose|j: int| 0 <= j < spec_ssh_paths(*h).len() && #[trigger] spec_ssh_paths(*h)[j].0 == x;
                assert(views(r@)[j] == x);
            }
        }
    }
    r
}

/// The first `n` aliases that do not name the detected machine.
pub open spec fn peers_upto(al: Seq<Seq<char>>, detected: Option<Host>, n: int) -> Seq<Seq<char>>
    decreases n,
{
    if n <= 0 {
        seq![]
    } else {
        peers_upto(al, detected, n - 1) + (if is_self_alias(al[n - 1], detected) {
            seq![]
        } else {
            seq![al[n - 1]]
        })
    }
}

fn contains_string(v: &Vec<String>, x: &str) -> (b: bool)
    ensures
        b == views(v@).contains(x@),
{
    let mut i: usize = 0;
    while i < v.len()
        invariant
            i <= v.len(),
            forall|k: int| 0 <= k < i ==> views(v@)[k] != x@,
        decreases v.len() - i,
    {
        if str_eq(v[i].as_str(), x) {
            assert(views(v@)[i as int] == x@);
            return true;
        }
        i = i + 1;
    }
    false
}

// ---------------------------------------------------------------------------
// The sections of the status
// ---------------------------------------------------------------------------

/// Title, version, the machine section (or the OS), and the root.
pub open spec fn spec_status_head(
    version: Seq<char>,
    exe: Seq<char>,
    machine: Seq<Seq<char>>,
    shell: Seq<char>,
    os: OsKind,
    root: Seq<char>,
    product_root: Seq<char>,
    st: Style,
) -> Seq<Seq<char>> {
    seq![
        spec_wrap(st.color, BOLD@ + CYAN@, "status"@),
        kv_line(st, "version"@, version + "  ("@ + exe + ")"@),
    ] + (if machine.len() > 0 {
        machine + seq![kv_line(st, "shell"@, shell)]
    } else {
        seq![kv_line(st, "os"@, os_name(os))]
    }) + seq![kv_line(st, "root"@, root), dim_line(st, spec_root_kind(root, product_root))]
}

/// The detected host, its role, a user to write, and what it wants; or
/// that this machine has no host file.
pub open spec fn spec_status_host(
    detected: Option<Host>,
    role: Option<Role>,
    hostname: Seq<char>,
    local_user: Seq<char>,
    extras: Seq<Seq<char>>,
    st: Style,
) -> Seq<Seq<char>> {
    match detected {
        Some(h) => seq![
            kv_line(st, "host"@, h.name@ + "  matched "@ + hostname),
            kv_line(st, "role"@, h.role@),
        ] + (match spec_user_write_needed(opt_view(h.user), local_user) {
            Some(d) => seq![kv_line(st, "user"@, d)],
            None => seq![],
        }) + (match role {
            Some(r) => seq![kv_line(st, "want"@, spec_feature_summary(merged_features(h, r)))] + extras,
            None => seq![],
        }),
        None => {
            let short = short_host(hostname);
            seq![kv_line(st, "host"@, short + "  no ~/.rig-hosts/"@ + short + ".toml — rig init"@)]
        },
    }
}

/// The SSH paths of the first `n` hosts other than the detected one.
pub open spec fn peer_path_total(hosts: Seq<(String, Host)>, detected: Option<Host>, n: int) -> nat
    decreases n,
{
    if n <= 0 {
        0
    } else {
        peer_path_total(hosts, detected, n - 1) + (match detected {
            Some(d) if hosts[n - 1].1.name@ == d.name@ => 0,
            _ => spec_ssh_paths(hosts[n - 1].1).len(),
        })
    }
}

pub open spec fn spec_status_hosts(hosts: Seq<(String, Host)>, detected: Option<Host>, st: Style) -> Seq<char> {
    kv_line(
        st,
        "hosts"@,
        decimal(hosts.len()) + " file(s), "@ + decimal(peer_path_total(hosts, detected, hosts.len() as int))
            + " peer path(s)  (rig host check)"@,
    )
}

/// The last apply: host, role and counts, where the state is, and the step
/// ids; or that rig never applied here.
pub open spec fn spec_status_apply(state: Option<RigState>, state_path: Seq<char>, st: Style) -> Seq<Seq<char>> {
    match state {
        Some(s) => seq![
            kv_line(
                st,
                "apply"@,
                s.host@ + " / "@ + s.role@ + "  "@ + decimal(s.managed_files@.len()) + " files, "@
                    + decimal(s.package_sets@.len()) + " sets"@,
            ),
            dim_line(st, state_path),
        ] + (if s.steps@.len() > 0 {
            seq![kv_line(st, "steps"@, join_text(entry_views(s.steps@).map_values(|e: (Seq<char>, Seq<char>)| e.0), " "@))]
        } else {
            seq![]
        }),
        None => seq![kv_line(st, "apply"@, "never  (rig apply --yes)"@)],
    }
}

/// The generated SSH config: its path, then its peer aliases (those not
/// naming this machine); or that it was not generated.
pub open spec fn spec_status_ssh(
    conf: Seq<char>,
    is_file: bool,
    text: Option<Seq<char>>,
    detected: Option<Host>,
    st: Style,
) -> Seq<Seq<char>> {
    if is_file {
        seq![kv_line(st, "ssh"@, conf)] + (match text {
            Some(t) => {
                let al = spec_host_aliases(t);
                let peers = peers_upto(al, detected, al.len() as int);
                seq![dim_line(st, decimal(peers.len()) + " peer alias(es)"@)] + peers.map_values(
                    |a: Seq<char>| kv_line(st, "alias"@, a),
                )
            },
            None => seq![],
        })
    } else {
        seq![kv_line(st, "ssh"@, "not generated  (rig host ssh-config -y)"@)]
    }
}

pub open spec fn spec_status_overlay(root: Seq<char>, is_dir: bool, names: Seq<String>, st: Style) -> Seq<char> {
    let has = exists|i: int| 0 <= i < names.len() && !is_placeholder(#[trigger] names[i]@);
    kv_line(
        st,
        "overlay"@,
        (if is_dir && has {
            "present"@
        } else {
            "empty"@
        }) + "  "@ + join_path(root, "overlay"@),
    )
}

/// What the caller read of this machine for the status.
pub struct StatusFacts {
    pub version: String,
    /// The running executable.
    pub exe: String,
    /// The machine section (`print_machine`).
    pub machine: Vec<String>,
    /// The login shell (`login_shell`), shown after a non-empty machine section.
    pub shell: String,
    pub os: OsKind,
    pub root: String,
    pub product_root: String,
    pub hostname: String,
    pub local_user: String,
    /// The extra packages lines for the detected host's plan.
    pub extras: Vec<String>,
    pub state: Option<RigState>,
    pub state_path: String,
    /// The live section (`print_live`).
    pub live: Vec<String>,
    pub ssh_conf: String,
    pub ssh_is_file: bool,
    pub ssh_text: Option<String>,
    pub overlay_is_dir: bool,
    /// The entry names of the overlay directory.
    pub overlay_names: Vec<String>,
}

pub open spec fn spec_status(
    f: StatusFacts,
    hosts: Seq<(String, Host)>,
    detected: Option<Host>,
    role: Option<Role>,
    st: Style,
) -> Seq<Seq<char>> {
    spec_status_head(f.version@, f.exe@, views(f.machine@), f.shell@, f.os, f.root@, f.product_root@, st)
        + spec_status_host(detected, role, f.hostname@, f.local_user@, views(f.extras@), st) + seq![
        spec_status_hosts(hosts, detected, st),
    ] + spec_status_apply(f.state, f.state_path@, st) + views(f.live@) + spec_status_ssh(
        f.ssh_conf@,
        f.ssh_is_file,
        opt_view(f.ssh_text),
        detected,
        st,
    ) + seq![spec_status_overlay(f.root@, f.overlay_is_dir, f.overlay_names@, st)]
}

/// What the live section probes: the wanted features of the detected
/// host's role (Thunderbolt only with a Thunderbolt address); nothing
/// without a host or a role.
pub fn live_wanted(detected: Option<&Host>, role: Option<&Role>) -> (w: LiveWanted)
    ensures
        match (detected, role) {
            (Some(h), Some(r)) => {
                let f = merged_features(*h, *r);
                w == LiveWanted {
                    stay_awake: f.stay_awake,
                    remote_login: f.remote_login,
                    screen_sharing: f.screen_sharing,
                    thunderbolt: f.thunderbolt && crate::schema::host::first_thunderbolt(
                        spec_ssh_paths(*h),
                        0,
                    ) is Some,
                    tailscale: f.tailscale,
                    cursor: f.cursor,
                }
            },
            _ => !(w.stay_awake || w.remote_login || w.screen_sharing || w.thunderbolt || w.tailscale
                || w.cursor),
        },
{
    match (detected, role) {
        (Some(h), Some(r)) => {
            let f = r.features.with_host(&h.features);
            let tb = h.thunderbolt_ip();
            LiveWanted {
                stay_awake: f.stay_awake,
                remote_login: f.remote_login,
                screen_sharing: f.screen_sharing,
                thunderbolt: f.thunderbolt && tb.is_some(),
                tailscale: f.tailscale,
                cursor: f.cursor,
            }
        },
        _ => LiveWanted {
            stay_awake: false,
            remote_login: false,
            screen_sharing: false,
            thunderbolt: false,
            tailscale: false,
            cursor: false,
        },
    }
}

fn status_head(f: &StatusFacts, st: &Style) -> (r: Vec<String>)
    ensures
        views(r@) == spec_status_head(f.version@, f.exe@, views(f.machine@), f.shell@, f.os, f.root@, f.product_root@, *st),
{
    let mut r: Vec<String> = Vec::new();
    r.push(title("status", false, st));
    let mut v = concat3(f.version.as_str(), "  (", f.exe.as_str());
    push_str(&mut v, ")");
    r.push(kv("version", v.as_str(), st));
    proof {
        reveal_strlit("");
    }
    let ghost h = views(r@);
    assert(h =~= seq![
        spec_wrap(st.color, BOLD@ + CYAN@, "status"@),
        kv_line(*st, "version"@, f.version@ + "  ("@ + f.exe@ + ")"@),
    ]);
    if f.machine.len() > 0 {
        let mut i: usize = 0;
        while i < f.machine.len()
            invariant
                i <= f.machine.len(),
                views(r@) == h + views(f.machine@).subrange(0, i as int),
            decreases f.machine.len() - i,
        {
            let ghost b = views(r@);
            r.push(owned(f.machine[i].as_str()));
            assert(views(r@) =~= b.push(views(f.machine@)[i as int]));
            assert(views(r@) =~= h + views(f.machine@).subrange(0, i + 1));
            i = i + 1;
        }
        assert(views(f.machine@).subrange(0, f.machine.len() as int) =~= views(f.machine@));
        let ghost b = views(r@);
        r.push(kv("shell", f.shell.as_str(), st));
        assert(b =~= h + views(f.machine@));
        assert(views(r@) =~= b.push(kv_line(*st, "shell"@, f.shell@)));
        assert(views(r@) =~= h + (views(f.machine@) + seq![kv_line(*st, "shell"@, f.shell@)]));
    } else {
        r.push(kv("os", f.os.as_str(), st));
        assert(views(r@) =~= h + seq![kv_line(*st, "os"@, os_name(f.os))]);
    }
    let ghost m = views(r@);
    r.push(kv("root", f.root.as_str(), st));
    r.push(kvc(root_kind(f.root.as_str(), f.product_root.as_str()), st));
    assert(views(r@) =~= m + seq![kv_line(*st, "root"@, f.root@), dim_line(*st, spec_root_kind(f.root@, f.product_root@))]);
    assert(views(r@) =~= spec_status_head(f.version@, f.exe@, views(f.machine@), f.shell@, f.os, f.root@, f.product_root@, *st));
    r
}

fn status_host(
    detected: Option<&Host>,
    role: Option<&Role>,
    hostname: &str,
    local_user: &str,
    extras: &Vec<String>,
    st: &Style,
) -> (r: Vec<String>)
    ensures
        views(r@) == spec_status_host(
            match detected {
                Some(h) => Some(*h),
                None => None,
            },
            match role {
                Some(x) => Some(*x),
                None => None,
            },
            hostname@,
            local_user@,
            views(extras@),
            *st,
        ),
{
    let mut r: Vec<String> = Vec::new();
    match detected {
        Some(h) => {
            let v = concat3(h.name.as_str(), "  matched ", hostname);
            r.push(kv("host", v.as_str(), st));
            r.push(kv("role", h.role.as_str(), st));
            let u = match &h.user {
                Some(x) => Some(x.as_str()),
                None => None,
            };
            let ghost h0 = views(r@);
            match user_write_needed(u, local_user) {
                Some(d) => {
                    r.push(note("user", d.as_str(), st));
                },
                None => {},
            }
            let ghost h1 = views(r@);
            assert(h1 =~= h0 + (match spec_user_write_needed(opt_view(h.user), local_user@) {
                Some(d) => seq![kv_line(*st, "user"@, d)],
                None => seq![],
            }));
            match role {
                Some(ro) => {
                    let f = ro.features.with_host(&h.features);
                    assert(f == merged_features(*h, *ro));
                    let w = feature_summary(&f);
                    r.push(kv("want", w.as_str(), st));
                    let mut i: usize = 0;
                    let ghost h2 = views(r@);
                    while i < extras.len()
                        invariant
                            i <= extras.len(),
                            views(r@) == h2 + views(extras@).subrange(0, i as int),
                        decreases extras.len() - i,
                    {
                        let ghost b = views(r@);
                        r.push(owned(extras[i].as_str()));
                        assert(views(r@) =~= b.push(views(extras@)[i as int]));
                        assert(views(r@) =~= h2 + views(extras@).subrange(0, i + 1));
                        i = i + 1;
                    }
                    assert(views(extras@).subrange(0, extras.len() as int) =~= views(extras@));
                },
                None => {},
            }
        },
        None => {
            let short = short_host_exec(hostname);
            let mut v = concat3(short.as_str(), "  no ~/.rig-hosts/", short.as_str());
            push_str(&mut v, ".toml — rig init");
            r.push(kv("host", v.as_str(), st));
        },
    }
    assert(views(r@) =~= spec_status_host(
        match detected {
            Some(h) => Some(*h),
            None => None,
        },
        match role {
            Some(x) => Some(*x),
            None => None,
        },
        hostname@,
        local_user@,
        views(extras@),
        *st,
    ));
    r
}

fn status_hosts(hosts: &[(String, Host)], detected: Option<&Host>, st: &Style) -> (r: String)
    requires
        peer_path_total(
            hosts@,
            match detected {
                Some(h) => Some(*h),
                None => None,
            },
            hosts@.len() as int,
        ) <= u64::MAX,
    ensures
        r@ == spec_status_hosts(
            hosts@,
            match detected {
                Some(h) => Some(*h),
                None => None,
            },
            *st,
        ),
{
    let ghost d = match detected {
        Some(h) => Some(*h),
        None => None::<Host>,
    };
    let mut total: u64 = 0;
    let mut i: usize = 0;
    while i < hosts.len()
        invariant
            i <= hosts.len(),
            d == match detected {
                Some(h) => Some(*h),
                None => None::<Host>,
            },
            peer_path_total(hosts@, d, hosts@.len() as int) <= u64::MAX,
            total == peer_path_total(hosts@, d, i as int),
        decreases hosts.len() - i,
    {
        proof {
            lemma_total_mono(hosts@, d, i as int + 1, hosts@.len() as int);
        }
        let counts = match detected {
            Some(dh) => !str_eq(hosts[i].1.name.as_str(), dh.name.as_str()),
            None => true,
        };
        if counts {
            let p = hosts[i].1.ssh_paths();
            assert(path_views(p@).len() == p@.len());
            total = total + p.len() as u64;
        }
        i = i + 1;
    }
    let n = decimal_string(hosts.len() as u64);
    let t = decimal_string(total);
    let mut v = concat2(n.as_str(), " file(s), ");
    push_str(&mut v, t.as_str());
    push_str(&mut v, " peer path(s)  (rig host check)");
    kv("hosts", v.as_str(), st)
}

proof fn lemma_total_mono(hosts: Seq<(String, Host)>, d: Option<Host>, a: int, b: int)
    requires
        a <= b,
    ensures
        peer_path_total(hosts, d, a) <= peer_path_total(hosts, d, b),
    decreases b - a,
{
    if a < b {
        lemma_total_mono(hosts, d, a, b - 1);
    }
}

fn status_apply(state: &Option<RigState>, state_path: &str, st: &Style) -> (r: Vec<String>)
    ensures
        views(r@) == spec_status_apply(*state, state_path@, *st),
{
    let mut r: Vec<String> = Vec::new();
    match state {
        Some(s) => {
            let mut v = concat3(s.host.as_str(), " / ", s.role.as_str());
            push_str(&mut v, "  ");
            let a = decimal_string(s.managed_files.len() as u64);
            push_str(&mut v, a.as_str());
            push_str(&mut v, " files, ");
            let b = decimal_string(s.package_sets.len() as u64);
            push_str(&mut v, b.as_str());
            push_str(&mut v, " sets");
            r.push(kv("apply", v.as_str(), st));
            r.push(kvc(state_path, st));
            if s.steps.len() > 0 {
                let mut ids: Vec<String> = Vec::new();
                let ghost ev = entry_views(s.steps@).map_values(|e: (Seq<char>, Seq<char>)| e.0);
                let mut i: usize = 0;
                while i < s.steps.len()
                    invariant
                        i <= s.steps.len(),
                        ev == entry_views(s.steps@).map_values(|e: (Seq<char>, Seq<char>)| e.0),
                        views(ids@) == ev.subrange(0, i as int),
                    decreases s.steps.len() - i,
                {
                    let ghost b0 = views(ids@);
                    ids.push(owned(s.steps[i].0.as_str()));
                    assert(ev[i as int] == s.steps@[i as int].0@);
                    assert(views(ids@) =~= b0.push(ev[i as int]));
                    assert(views(ids@) =~= ev.subrange(0, i + 1));
                    i = i + 1;
                }
                assert(ev.subrange(0, s.steps.len() as int) =~= ev);
                let j = join_strings(ids.as_slice(), " ");
                r.push(kv("steps", j.as_str(), st));
            }
        },
        None => {
            r.push(kv("apply", "never  (rig apply --yes)", st));
        },
    }
    assert(views(r@) =~= spec_status_apply(*state, state_path@, *st));
    r
}

fn status_ssh(conf: &str, is_file: bool, text: &Option<String>, detected: Option<&Host>, st: &Style) -> (r: Vec<
    String,
>)
    ensures
        views(r@) == spec_status_ssh(
            conf@,
            is_file,
            opt_view(*text),
            match detected {
                Some(h) => Some(*h),
                None => None,
            },
            *st,
        ),
{
    let ghost d = match detected {
        Some(h) => Some(*h),
        None => None::<Host>,
    };
    let mut r: Vec<String> = Vec::new();
    if !is_file {
        r.push(kv("ssh", "not generated  (rig host ssh-config -y)", st));
        return r;
    }
    r.push(kv("ssh", conf, st));
    match text {
        None => {},
        Some(t) => {
            let skip = self_aliases(detected);
            let al = host_aliases(t.as_str());
            let ghost alv = views(al@);
            let mut peers: Vec<String> = Vec::new();
            let mut i: usize = 0;
            while i < al.len()
                invariant
                    i <= al.len(),
                    alv == views(al@),
                    forall|x: Seq<char>| views(skip@).contains(x) <==> is_self_alias(x, d),
                    views(peers@) == peers_upto(alv, d, i as int),
                decreases al.len() - i,
            {
                let ghost b = views(peers@);
                assert(alv[i as int] == al@[i as int]@);
                if !contains_string(&skip, al[i].as_str()) {
                    peers.push(owned(al[i].as_str()));
                    assert(views(peers@) =~= b.push(alv[i as int]));
                } else {
                    assert(views(peers@) =~= b + Seq::<Seq<char>>::empty());
                }
                assert(views(peers@) =~= peers_upto(alv, d, i + 1));
                i = i + 1;
            }
            let ghost pv = views(peers@);
            let n = decimal_string(peers.len() as u64);
            let c = concat2(n.as_str(), " peer alias(es)");
            r.push(kvc(c.as_str(), st));
            let ghost h = views(r@);
            let mut j: usize = 0;
            while j < peers.len()
                invariant
                    j <= peers.len(),
                    pv == views(peers@),
                    views(r@) == h + pv.map_values(|a: Seq<char>| kv_line(*st, "alias"@, a)).subrange(0, j as int),
                decreases peers.len() - j,
            {
                let ghost b = views(r@);
                r.push(note("alias", peers[j].as_str(), st));
                assert(views(r@) =~= b.push(kv_line(*st, "alias"@, pv[j as int])));
                assert(views(r@) =~= h + pv.map_values(|a: Seq<char>| kv_line(*st, "alias"@, a)).subrange(0, j + 1));
                j = j + 1;
            }
            assert(pv.map_values(|a: Seq<char>| kv_line(*st, "alias"@, a)).subrange(0, peers.len() as int)
                =~= pv.map_values(|a: Seq<char>| kv_line(*st, "alias"@, a)));
        },
    }
    assert(views(r@) =~= spec_status_ssh(conf@, is_file, opt_view(*text), d, *st));
    r
}

fn status_overlay(root: &str, is_dir: bool, names: &Vec<String>, st: &Style) -> (r: String)
    ensures
        r@ == spec_status_overlay(root@, is_dir, names@, *st),
{
    let o = join(root, "overlay");
    let has = overlay_has_files(names.as_slice());
    let n = if is_dir && has { "present" } else { "empty" };
    let v = concat3(n, "  ", o.as_str());
    kv("overlay", v.as_str(), st)
}

/// The status report, from what the caller read, the inventory, the host
/// detected among it, and that host's role (when it loaded).
pub fn run(f: &StatusFacts, hosts: &[(String, Host)], detected: Option<&Host>, role: Option<&Role>, st: &Style) -> (r: Vec<
    String,
>)
    requires
        peer_path_total(
            hosts@,
            match detected {
                Some(h) => Some(*h),
                None => None,
            },
            hosts@.len() as int,
        ) <= u64::MAX,
    ensures
        views(r@) == spec_status(
            *f,
            hosts@,
            match detected {
                Some(h) => Some(*h),
                None => None,
            },
            match role {
                Some(x) => Some(*x),
                None => None,
            },
            *st,
        ),
{
    let ghost d = match detected {
        Some(h) => Some(*h),
        None => None::<Host>,
    };
    let ghost ro = match role {
        Some(x) => Some(*x),
        None => None::<Role>,
    };
    let mut r = status_head(f, st);
    let ghost p1 = views(r@);
    append_lines(&mut r, status_host(detected, role, f.hostname.as_str(), f.local_user.as_str(), &f.extras, st));
    let ghost p2 = views(r@);
    let hl = status_hosts(hosts, detected, st);
    r.push(hl);
    assert(views(r@) =~= p2.push(spec_status_hosts(hosts@, d, *st)));
    let ghost p3 = views(r@);
    append_lines(&mut r, status_apply(&f.state, f.state_path.as_str(), st));
    let mut i: usize = 0;
    let ghost h = views(r@);
    while i < f.live.len()
        invariant
            i <= f.live.len(),
            views(r@) == h + views(f.live@).subrange(0, i as int),
        decreases f.live.len() - i,
    {
        let ghost b = views(r@);
        r.push(owned(f.live[i].as_str()));
        assert(views(r@) =~= b.push(views(f.live@)[i as int]));
        assert(views(r@) =~= h + views(f.live@).subrange(0, i + 1));
        i = i + 1;
    }
    assert(views(f.live@).subrange(0, f.live.len() as int) =~= views(f.live@));
    append_lines(&mut r, status_ssh(f.ssh_conf.as_str(), f.ssh_is_file, &f.ssh_text, detected, st));
    let ghost p5 = views(r@);
    let ol = status_overlay(f.root.as_str(), f.overlay_is_dir, &f.overlay_names, st);
    r.push(ol);
    assert(views(r@) =~= p5.push(spec_status_overlay(f.root@, f.overlay_is_dir, f.overlay_names@, *st)));
    assert(views(r@) =~= spec_status(*f, hosts@, d, ro, *st));
    r
}

} // verus!
