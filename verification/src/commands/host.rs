//! `rig host list` and `rig host detect`: the inventory as a table, and
//! which host file names this machine.
use vstd::prelude::*;
use crate::ui::{kv_line};
use crate::paths::{join, join_path};
use crate::schema::host::{
    link_name, path_views, spec_detect_os, spec_detect_shell, spec_ssh_paths, spec_user_write_needed,
    opt_view, user_write_needed, PathView,
};
use crate::schema::role::os_name;
use crate::schema::{short_host, short_host_exec, Host};
use crate::apply::plan::shell_name;
use crate::text::{
    chars_of, concat2, concat3, join as join_text, join_strings, owned, pad_right, pad_right_str,
    push_str, views,
};
use crate::ui::{
    empty, kv, note, spec_field_line, spec_tidy, spec_wrap, table_head, table_row, title, Style, BOLD,
    CYAN, DIM, YELLOW,
};

verus! {

/// The widest of `lens`, at least `min`.
pub open spec fn width_upto(lens: Seq<nat>, min: nat, n: int) -> nat
    decreases n,
{
    if n <= 0 {
        min
    } else {
        let w = width_upto(lens, min, n - 1);
        if lens[n - 1] > w {
            lens[n - 1]
        } else {
            w
        }
    }
}

/// The width of a column: its longest entry in characters, at least `min`.
pub open spec fn spec_col_w(min: nat, xs: Seq<Seq<char>>) -> nat {
    width_upto(xs.map_values(|x: Seq<char>| x.len()), min, xs.len() as int)
}

pub fn col_w(min: usize, xs: &Vec<String>) -> (w: usize)
    ensures
        w == spec_col_w(min as nat, views(xs@)),
{
    let ghost lens = views(xs@).map_values(|x: Seq<char>| x.len());
    let mut w = min;
    let mut i: usize = 0;
    while i < xs.len()
        invariant
            i <= xs.len(),
            lens == views(xs@).map_values(|x: Seq<char>| x.len()),
            w == width_upto(lens, min as nat, i as int),
        decreases xs.len() - i,
    {
        let n = chars_of(xs[i].as_str()).len();
        assert(lens[i as int] == xs@[i as int]@.len());
        if n > w {
            w = n;
        }
        i = i + 1;
    }
    w
}

/// The `net` column of a host: `link:alias` for each path, or `-`.
pub open spec fn spec_net(ps: Seq<PathView>) -> Seq<char> {
    if ps.len() == 0 {
        "-"@
    } else {
        join_text(ps.map_values(|p: PathView| link_name(p.2) + ":"@ + p.0), "  "@)
    }
}

/// A table line: name and role padded to their columns, OS and shell to
/// five characters, then the network paths.
pub open spec fn spec_table_line(
    name: Seq<char>,
    nw: nat,
    role: Seq<char>,
    rw: nat,
    os: Seq<char>,
    shell: Seq<char>,
    net: Seq<char>,
) -> Seq<char> {
    pad_right(name, nw) + "  "@ + pad_right(role, rw) + "  "@ + pad_right(os, 5) + " "@ + pad_right(shell, 5)
        + " "@ + net
}

pub open spec fn host_names_of(hosts: Seq<(String, Host)>) -> Seq<Seq<char>> {
    hosts.map_values(|e: (String, Host)| e.1.name@)
}

pub open spec fn host_roles_of(hosts: Seq<(String, Host)>) -> Seq<Seq<char>> {
    hosts.map_values(|e: (String, Host)| e.1.role@)
}

/// The row of one host, given the columns' widths, `$SHELL` and the target OS.
pub open spec fn spec_host_row(h: Host, nw: nat, rw: nat, shell_env: Seq<char>, target_os: Seq<char>) -> Seq<char> {
    let os = match h.os {
        Some(o) => o,
        None => spec_detect_os(target_os),
    };
    let sh = match h.shell {
        Some(s) => s,
        None => spec_detect_shell(shell_env),
    };
    "  "@ + spec_table_line(h.name@, nw, h.role@, rw, os_name(os), shell_name(sh), spec_net(spec_ssh_paths(h)))
}

/// `rig host list`: a title, then the table of hosts (or that there is none).
pub open spec fn spec_host_list(hosts: Seq<(String, Host)>, shell_env: Seq<char>, target_os: Seq<char>, st: Style) -> Seq<
    Seq<char>,
> {
    let head = spec_wrap(st.color, BOLD@ + CYAN@, "host list"@);
    if hosts.len() == 0 {
        seq![
            head,
            spec_field_line(
                st,
                DIM@,
                ""@,
                DIM@,
                ""@,
                DIM@,
                spec_tidy("none — copy hosts/examples/*.toml to ~/.rig-hosts/ and edit"@, st),
            ),
        ]
    } else {
        let nw = spec_col_w(4, host_names_of(hosts));
        let rw = spec_col_w(4, host_roles_of(hosts));
        seq![head, "  "@ + spec_wrap(st.color, DIM@, spec_table_line("name"@, nw, "role"@, rw, "os"@, "shell"@, "net"@))]
            + Seq::new(hosts.len(), |i: int| spec_host_row(hosts[i].1, nw, rw, shell_env, target_os))
    }
}

fn net_of(h: &Host) -> (r: String)
    ensures
        r@ == spec_net(spec_ssh_paths(*h)),
{
    let ps = h.ssh_paths();
    let ghost pv = path_views(ps@);
    if ps.len() == 0 {
        return owned("-");
    }
    let mut parts: Vec<String> = Vec::new();
    let mut i: usize = 0;
    while i < ps.len()
        invariant
            i <= ps.len(),
            pv == path_views(ps@),
            views(parts@) == pv.map_values(|p: PathView| link_name(p.2) + ":"@ + p.0).subrange(0, i as int),
        decreases ps.len() - i,
    {
        let ghost b = views(parts@);
        let x = concat3(ps[i].link.as_str(), ":", ps[i].alias.as_str());
        assert(pv[i as int] == ps@[i as int]@);
        parts.push(x);
        assert(views(parts@) =~= b.push(link_name(pv[i as int].2) + ":"@ + pv[i as int].0));
        assert(views(parts@) =~= pv.map_values(|p: PathView| link_name(p.2) + ":"@ + p.0).subrange(0, i + 1));
        i = i + 1;
    }
    assert(pv.map_values(|p: PathView| link_name(p.2) + ":"@ + p.0).subrange(0, ps.len() as int) =~= pv.map_values(
        |p: PathView| link_name(p.2) + ":"@ + p.0,
    ));
    join_strings(parts.as_slice(), "  ")
}

fn table_line(name: &str, nw: usize, role: &str, rw: usize, os: &str, shell: &str, net: &str) -> (r: String)
    ensures
        r@ == spec_table_line(name@, nw as nat, role@, rw as nat, os@, shell@, net@),
{
    let mut s = pad_right_str(name, nw);
    push_str(&mut s, "  ");
    let r = pad_right_str(role, rw);
    push_str(&mut s, r.as_str());
    push_str(&mut s, "  ");
    let o = pad_right_str(os, 5);
    push_str(&mut s, o.as_str());
    push_str(&mut s, " ");
    let h = pad_right_str(shell, 5);
    push_str(&mut s, h.as_str());
    push_str(&mut s, " ");
    push_str(&mut s, net);
    s
}

/// The lines of `rig host list`, given `$SHELL` and the target OS for hosts
/// that leave them out.
pub fn list(hosts: &[(String, Host)], shell_env: &str, target_os: &str, st: &Style) -> (r: Vec<String>)
    ensures
        views(r@) == spec_host_list(hosts@, shell_env@, target_os@, *st),
{
    let mut r: Vec<String> = Vec::new();
    r.push(title("host list", false, st));
    proof {
        reveal_strlit("");
    }
    if hosts.len() == 0 {
        r.push(empty("none — copy hosts/examples/*.toml to ~/.rig-hosts/ and edit", st));
        assert(views(r@) =~= spec_host_list(hosts@, shell_env@, target_os@, *st));
        return r;
    }
    let mut names: Vec<String> = Vec::new();
    let mut roles: Vec<String> = Vec::new();
    let mut i: usize = 0;
    while i < hosts.len()
        invariant
            i <= hosts.len(),
            views(names@) == host_names_of(hosts@).subrange(0, i as int),
            views(roles@) == host_roles_of(hosts@).subrange(0, i as int),
        decreases hosts.len() - i,
    {
        let ghost a = views(names@);
        let ghost b = views(roles@);
        names.push(owned(hosts[i].1.name.as_str()));
        roles.push(owned(hosts[i].1.role.as_str()));
        assert(views(names@) =~= a.push(hosts@[i as int].1.name@));
        assert(views(roles@) =~= b.push(hosts@[i as int].1.role@));
        assert(views(names@) =~= host_names_of(hosts@).subrange(0, i + 1));
        assert(views(roles@) =~= host_roles_of(hosts@).subrange(0, i + 1));
        i = i + 1;
    }
    assert(host_names_of(hosts@).subrange(0, hosts.len() as int) =~= host_names_of(hosts@));
    assert(host_roles_of(hosts@).subrange(0, hosts.len() as int) =~= host_roles_of(hosts@));
    let nw = col_w(4, &names);
    let rw = col_w(4, &roles);
    let head = table_line("name", nw, "role", rw, "os", "shell", "net");
    r.push(table_head(head.as_str(), st));
    let ghost h = views(r@);
    let mut j: usize = 0;
    while j < hosts.len()
        invariant
            j <= hosts.len(),
            nw == spec_col_w(4, host_names_of(hosts@)),
            rw == spec_col_w(4, host_roles_of(hosts@)),
            views(r@) == h + Seq::new(
                j as nat,
                |k: int| spec_host_row(hosts@[k].1, nw as nat, rw as nat, shell_env@, target_os@),
            ),
        decreases hosts.len() - j,
    {
        let ghost b = views(r@);
        let hh = &hosts[j].1;
        let os = hh.resolved_os(target_os);
        let sh = hh.resolved_shell(shell_env);
        let net = net_of(hh);
        let line = table_line(hh.name.as_str(), nw, hh.role.as_str(), rw, os.as_str(), sh.as_str(), net.as_str());
        let row = table_row(line.as_str());
        assert(row@ == spec_host_row(*hh, nw as nat, rw as nat, shell_env@, target_os@));
        r.push(row);
        assert(views(r@) =~= b.push(spec_host_row(*hh, nw as nat, rw as nat, shell_env@, target_os@)));
        assert(views(r@) =~= h + Seq::new(
            (j + 1) as nat,
            |k: int| spec_host_row(hosts@[k].1, nw as nat, rw as nat, shell_env@, target_os@),
        ));
        j = j + 1;
    }
    assert(views(r@) =~= spec_host_list(hosts@, shell_env@, target_os@, *st));
    r
}

/// `rig host detect`: the host name, the inventory directory, then the host
/// file that names this machine (and a user to write) or the one expected.
pub open spec fn spec_host_detect(
    hostname: Seq<char>,
    hosts_dir: Seq<char>,
    detected: Option<Host>,
    local_user: Seq<char>,
    st: Style,
) -> Seq<Seq<char>> {
    let head = seq![
        spec_wrap(st.color, BOLD@ + CYAN@, "host detect"@),
        kv_line(st, "hostname"@, hostname),
        kv_line(st, "hosts"@, hosts_dir + "/"@),
    ];
    match detected {
        Some(h) => head + seq![kv_line(st, "matched"@, h.name@ + "  "@ + h.role@)] + (match spec_user_write_needed(
            opt_view(h.user),
            local_user,
        ) {
            Some(d) => seq![kv_line(st, "user"@, d)],
            None => seq![],
        }) + seq![kv_line(st, "edit"@, join_path(hosts_dir, h.name@ + ".toml"@))],
        None => {
            let short = short_host(hostname);
            head + seq![
                kv_line(st, "matched"@, "none — rig init or add ~/.rig-hosts/"@ + short + ".toml"@),
                kv_line(st, "expected"@, join_path(hosts_dir, short + ".toml"@)),
            ]
        },
    }
}

/// The lines of `rig host detect`, from the host name, the inventory
/// directory, the host detected and the local user.
pub fn detect(hostname: &str, hosts_dir: &str, detected: Option<&Host>, local_user: &str, st: &Style) -> (r: Vec<
    String,
>)
    ensures
        views(r@) == spec_host_detect(
            hostname@,
            hosts_dir@,
            match detected {
                Some(h) => Some(*h),
                None => None,
            },
            local_user@,
            *st,
        ),
{
    let mut r: Vec<String> = Vec::new();
    r.push(title("host detect", false, st));
    r.push(kv("hostname", hostname, st));
    let hd = concat2(hosts_dir, "/");
    r.push(kv("hosts", hd.as_str(), st));
    let ghost h0 = views(r@);
    match detected {
        Some(h) => {
            let m = concat3(h.name.as_str(), "  ", h.role.as_str());
            r.push(kv("matched", m.as_str(), st));
            let u = match &h.user {
                Some(x) => Some(x.as_str()),
                None => None,
            };
            let ghost h1 = views(r@);
            match user_write_needed(u, local_user) {
                Some(d) => {
                    r.push(note("user", d.as_str(), st));
                },
                None => {},
            }
            let ghost h2 = views(r@);
            assert(h2 =~= h1 + (match spec_user_write_needed(opt_view(h.user), local_user@) {
                Some(d) => seq![kv_line(*st, "user"@, d)],
                None => seq![],
            }));
            let f = concat2(h.name.as_str(), ".toml");
            let e = join(hosts_dir, f.as_str());
            r.push(kv("edit", e.as_str(), st));
        },
        None => {
            let short = short_host_exec(hostname);
            let m = concat3("none — rig init or add ~/.rig-hosts/", short.as_str(), ".toml");
            r.push(kv("matched", m.as_str(), st));
            let f = concat2(short.as_str(), ".toml");
            let e = join(hosts_dir, f.as_str());
            r.push(kv("expected", e.as_str(), st));
        },
    }
    assert(views(r@) =~= spec_host_detect(
        hostname@,
        hosts_dir@,
        match detected {
            Some(h) => Some(*h),
            None => None,
        },
        local_user@,
        *st,
    ));
    r
}

} // verus!
