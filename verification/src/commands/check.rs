//! `rig host check`: which peers answer on TCP/22 and which take a
//! passwordless SSH login. The probes are made by the caller; this module
//! picks the peers, and turns the probes' results into the report.
use vstd::prelude::*;
use crate::text::append_lines;
use crate::schema::host::{link_comment, link_name, path_views, spec_ssh_paths, PathView};
use crate::schema::{short_host, short_host_exec, Host, SshPath};
use crate::text::{concat2, owned, push_str, str_eq, views};
use crate::ui::{
    empty, fail, kv, ok, section, spec_field_line, spec_step_line, spec_tidy, spec_wrap, title,
    Style, BOLD, CYAN, DIM, YELLOW,
};

verus! {

/// A peer to probe, with its SSH paths in order.
pub struct CheckTarget {
    pub peer: String,
    pub paths: Vec<SshPath>,
}

pub type TargetView = (Seq<char>, Seq<PathView>);

impl View for CheckTarget {
    type V = TargetView;

    open spec fn view(&self) -> TargetView {
        (self.peer@, path_views(self.paths@))
    }
}

pub open spec fn target_views(s: Seq<CheckTarget>) -> Seq<TargetView> {
    s.map_values(|t: CheckTarget| t@)
}

/// What the probes of one SSH path found: whether TCP/22 answered, and
/// whether a batch-mode SSH login succeeded (asked only when it did).
#[derive(Clone, Copy)]
pub struct PathProbe {
    pub tcp: bool,
    pub ssh: bool,
}

/// A path is reachable by SSH when its port answered and the login succeeded.
pub open spec fn reaches(p: PathProbe) -> bool {
    p.tcp && p.ssh
}

/// The name this machine goes by: that of its host file, else its short
/// host name.
pub open spec fn spec_self_name(detected: Option<Seq<char>>, hostname: Seq<char>) -> Seq<char> {
    match detected {
        Some(n) => n,
        None => short_host(hostname),
    }
}

pub fn check_self_name(detected: Option<&Host>, hostname: &str) -> (r: String)
    ensures
        r@ == spec_self_name(
            match detected {
                Some(h) => Some(h.name@),
                None => None,
            },
            hostname@,
        ),
{
    match detected {
        Some(h) => owned(h.name.as_str()),
        None => short_host_exec(hostname),
    }
}

/// The peers among the first `n` hosts: every host but this one that has
/// an SSH path, with its paths.
pub open spec fn targets_upto(hosts: Seq<(String, Host)>, self_name: Seq<char>, n: int) -> Seq<TargetView>
    decreases n,
{
    if n <= 0 {
        seq![]
    } else {
        let h = hosts[n - 1].1;
        targets_upto(hosts, self_name, n - 1) + (if h.name@ != self_name && spec_ssh_paths(h).len()
            > 0 {
            seq![(h.name@, spec_ssh_paths(h))]
        } else {
            seq![]
        })
    }
}

pub open spec fn spec_check_targets(hosts: Seq<(String, Host)>, self_name: Seq<char>) -> Seq<TargetView> {
    targets_upto(hosts, self_name, hosts.len() as int)
}

/// The peers to probe, in inventory order.
pub fn check_targets(hosts: &[(String, Host)], self_name: &str) -> (out: Vec<CheckTarget>)
    ensures
        target_views(out@) == spec_check_targets(hosts@, self_name@),
{
    let mut out: Vec<CheckTarget> = Vec::new();
    let mut i: usize = 0;
    while i < hosts.len()
        invariant
            i <= hosts.len(),
            target_views(out@) == targets_upto(hosts@, self_name@, i as int),
        decreases hosts.len() - i,
    {
        let h = &hosts[i].1;
        let ghost before = target_views(out@);
        let paths = h.ssh_paths();
        assert(path_views(paths@).len() == paths@.len());
        if !str_eq(h.name.as_str(), self_name) && paths.len() > 0 {
            let peer = owned(h.name.as_str());
            out.push(CheckTarget { peer, paths });
            assert(target_views(out@) =~= before.push((h.name@, spec_ssh_paths(*h))));
        }
        assert(target_views(out@) =~= targets_upto(hosts@, self_name@, i + 1));
        i = i + 1;
    }
    out
}

/// The detail of a probed path: its alias and address, then what answered.
pub open spec fn spec_path_detail(alias: Seq<char>, ip: Seq<char>, pr: PathProbe) -> Seq<char> {
    alias + "  "@ + ip + (if reaches(pr) {
        "  ssh ok"@
    } else if pr.tcp {
        "  tcp open  ssh no (try: rig host keys -y)"@
    } else {
        "  no tcp/22"@
    })
}

/// The line of a probed path: `ok` when SSH got in, else `fail`, under the
/// path's link.
pub open spec fn spec_path_line(p: PathView, pr: PathProbe, st: Style) -> Seq<char> {
    spec_step_line(
        st,
        if reaches(pr) {
            "ok"@
        } else {
            "fail"@
        },
        link_name(p.2),
        spec_path_detail(p.0, p.1, pr),
    )
}

/// The lines of one peer: its name as a heading, then one line per path.
pub open spec fn spec_target_lines(t: TargetView, prs: Seq<PathProbe>, st: Style) -> Seq<Seq<char>> {
    seq!["  "@ + spec_wrap(st.color, DIM@, t.0)] + Seq::new(
        t.1.len(),
        |j: int| spec_path_line(t.1[j], prs[j], st),
    )
}

/// The lines of the first `n` peers.
pub open spec fn blocks_upto(ts: Seq<TargetView>, prs: Seq<Seq<PathProbe>>, st: Style, n: int) -> Seq<
    Seq<char>,
>
    decreases n,
{
    if n <= 0 {
        seq![]
    } else {
        blocks_upto(ts, prs, st, n - 1) + spec_target_lines(ts[n - 1], prs[n - 1], st)
    }
}

/// The summary line of a path SSH got in by.
pub open spec fn spec_ok_line(peer: Seq<char>, p: PathView, st: Style) -> Seq<char> {
    spec_field_line(
        st,
        DIM@,
        ""@,
        DIM@,
        "ssh"@,
        YELLOW@,
        spec_tidy("ssh "@ + p.0 + "  "@ + peer + "  "@ + link_comment(p.2), st),
    )
}

/// The summary lines of the first `m` paths of one peer.
pub open spec fn target_oks(t: TargetView, prs: Seq<PathProbe>, st: Style, m: int) -> Seq<Seq<char>>
    decreases m,
{
    if m <= 0 {
        seq![]
    } else {
        target_oks(t, prs, st, m - 1) + (if reaches(prs[m - 1]) {
            seq![spec_ok_line(t.0, t.1[m - 1], st)]
        } else {
            seq![]
        })
    }
}

/// The summary lines of the first `n` peers.
pub open spec fn oks_upto(ts: Seq<TargetView>, prs: Seq<Seq<PathProbe>>, st: Style, n: int) -> Seq<
    Seq<char>,
>
    decreases n,
{
    if n <= 0 {
        seq![]
    } else {
        oks_upto(ts, prs, st, n - 1) + target_oks(ts[n - 1], prs[n - 1], st, ts[n - 1].1.len() as int)
    }
}

/// The whole report: title and self, then either that there is no peer, or
/// each peer's lines, a blank line, and the paths SSH got in by (or that
/// there is none).
pub open spec fn spec_check_report(
    self_name: Seq<char>,
    ts: Seq<TargetView>,
    prs: Seq<Seq<PathProbe>>,
    st: Style,
) -> Seq<Seq<char>> {
    let head = seq![
        spec_wrap(st.color, BOLD@ + CYAN@, "check"@),
        spec_field_line(st, DIM@, ""@, DIM@, "self"@, YELLOW@, spec_tidy(self_name, st)),
    ];
    if ts.len() == 0 {
        head + seq![
            spec_field_line(
                st,
                DIM@,
                ""@,
                DIM@,
                ""@,
                DIM@,
                spec_tidy("no peers with [[ssh]] — add alias/ip/link in hosts/*.toml"@, st),
            ),
        ]
    } else {
        let oks = oks_upto(ts, prs, st, ts.len() as int);
        head + blocks_upto(ts, prs, st, ts.len() as int) + seq![Seq::<char>::empty()] + (if oks.len()
            == 0 {
            seq![
                spec_field_line(
                    st,
                    DIM@,
                    ""@,
                    DIM@,
                    ""@,
                    DIM@,
                    spec_tidy("no passwordless SSH yet — try: rig host keys -y"@, st),
                ),
            ]
        } else {
            seq!["  "@ + spec_wrap(st.color, DIM@, "can ssh"@)] + oks
        })
    }
}

/// Each probe list matches its peer's paths.
pub open spec fn probes_fit(ts: Seq<TargetView>, prs: Seq<Seq<PathProbe>>) -> bool {
    prs.len() == ts.len() && forall|i: int| 0 <= i < ts.len() ==> #[trigger] prs[i].len() == ts[i].1.len()
}

fn path_detail(p: &SshPath, pr: PathProbe) -> (r: String)
    ensures
        r@ == spec_path_detail(p.alias@, p.ip@, pr),
{
    let mut d = concat2(p.alias.as_str(), "  ");
    push_str(&mut d, p.ip.as_str());
    if pr.tcp && pr.ssh {
        push_str(&mut d, "  ssh ok");
    } else if pr.tcp {
        push_str(&mut d, "  tcp open  ssh no (try: rig host keys -y)");
    } else {
        push_str(&mut d, "  no tcp/22");
    }
    d
}

fn ok_line(peer: &str, p: &SshPath, st: &Style) -> (r: String)
    ensures
        r@ == spec_ok_line(peer@, p@, *st),
{
    let mut v = concat2("ssh ", p.alias.as_str());
    push_str(&mut v, "  ");
    push_str(&mut v, peer);
    push_str(&mut v, "  ");
    push_str(&mut v, p.link.comment());
    kv("ssh", v.as_str(), st)
}

/// The lines of one peer and its summary lines.
fn target_report(t: &CheckTarget, prs: &Vec<PathProbe>, st: &Style) -> (r: (Vec<String>, Vec<String>))
    requires
        prs.len() == t.paths.len(),
    ensures
        views(r.0@) == spec_target_lines(t@, prs@, *st),
        views(r.1@) == target_oks(t@, prs@, *st, t.paths.len() as int),
{
    let ghost tv = t@;
    let mut lines: Vec<String> = Vec::new();
    let mut oks: Vec<String> = Vec::new();
    lines.push(section(t.peer.as_str(), st));
    let mut j: usize = 0;
    while j < t.paths.len()
        invariant
            j <= t.paths.len(),
            prs.len() == t.paths.len(),
            tv == t@,
            views(lines@) == seq!["  "@ + spec_wrap(st.color, DIM@, tv.0)] + Seq::new(
                j as nat,
                |k: int| spec_path_line(tv.1[k], prs@[k], *st),
            ),
            views(oks@) == target_oks(tv, prs@, *st, j as int),
        decreases t.paths.len() - j,
    {
        let p = &t.paths[j];
        let pr = prs[j];
        assert(tv.1[j as int] == p@);
        let ghost l0 = views(lines@);
        let ghost o0 = views(oks@);
        let d = path_detail(p, pr);
        let reached = pr.tcp && pr.ssh;
        let line = if reached {
            ok(p.link.as_str(), d.as_str(), st)
        } else {
            fail(p.link.as_str(), d.as_str(), st)
        };
        assert(line@ == spec_path_line(tv.1[j as int], prs@[j as int], *st));
        let ghost lv = line@;
        lines.push(line);
        assert(views(lines@) =~= l0.push(lv));
        assert(views(lines@) =~= seq!["  "@ + spec_wrap(st.color, DIM@, tv.0)] + Seq::new(
            (j + 1) as nat,
            |k: int| spec_path_line(tv.1[k], prs@[k], *st),
        ));
        if reached {
            oks.push(ok_line(t.peer.as_str(), p, st));
            assert(views(oks@) =~= o0.push(spec_ok_line(tv.0, tv.1[j as int], *st)));
        } else {
            assert(views(oks@) =~= o0 + Seq::<Seq<char>>::empty());
        }
        j = j + 1;
    }
    assert(tv.1.len() == t.paths.len());
    assert(views(lines@) =~= spec_target_lines(t@, prs@, *st));
    (lines, oks)
}

/// The report of `rig host check`, from this machine's name, the peers, and
/// for each peer the probes of its paths in order.
pub fn run(self_name: &str, targets: &Vec<CheckTarget>, probes: &Vec<Vec<PathProbe>>, st: &Style) -> (r: Vec<
    String,
>)
    requires
        probes_fit(target_views(targets@), probes@.map_values(|v: Vec<PathProbe>| v@)),
    ensures
        views(r@) == spec_check_report(
            self_name@,
            target_views(targets@),
            probes@.map_values(|v: Vec<PathProbe>| v@),
            *st,
        ),
{
    let ghost ts = target_views(targets@);
    let ghost prs = probes@.map_values(|v: Vec<PathProbe>| v@);
    let mut r: Vec<String> = Vec::new();
    r.push(title("check", false, st));
    r.push(kv("self", self_name, st));
    proof {
        reveal_strlit("");
    }
    assert(views(r@) =~= seq![
        spec_wrap(st.color, BOLD@ + CYAN@, "check"@),
        spec_field_line(*st, DIM@, ""@, DIM@, "self"@, YELLOW@, spec_tidy(self_name@, *st)),
    ]);
    let ghost head = views(r@);
    if targets.len() == 0 {
        r.push(empty("no peers with [[ssh]] — add alias/ip/link in hosts/*.toml", st));
        return r;
    }
    let mut blocks: Vec<String> = Vec::new();
    let mut oks: Vec<String> = Vec::new();
    let mut i: usize = 0;
    while i < targets.len()
        invariant
            i <= targets.len(),
            ts == target_views(targets@),
            prs == probes@.map_values(|v: Vec<PathProbe>| v@),
            probes_fit(ts, prs),
            views(blocks@) == blocks_upto(ts, prs, *st, i as int),
            views(oks@) == oks_upto(ts, prs, *st, i as int),
        decreases targets.len() - i,
    {
        assert(ts[i as int] == targets@[i as int]@);
        assert(prs[i as int] == probes@[i as int]@);
        assert(prs[i as int].len() == ts[i as int].1.len());
        assert(path_views(targets@[i as int].paths@).len() == targets@[i as int].paths@.len());
        let (l, o) = target_report(&targets[i], &probes[i], st);
        append_lines(&mut blocks, l);
        append_lines(&mut oks, o);
        i = i + 1;
    }
    let ghost okv = views(oks@);
    assert(okv.len() == oks.len());
    let no_ok = oks.len() == 0;
    append_lines(&mut r, blocks);
    r.push(String::new());
    if no_ok {
        r.push(empty("no passwordless SSH yet — try: rig host keys -y", st));
    } else {
        r.push(section("can ssh", st));
        append_lines(&mut r, oks);
    }
    assert(views(r@) =~= spec_check_report(self_name@, ts, prs, *st));
    r
}

} // verus!
