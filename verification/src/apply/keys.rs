//! Copying this machine's public key to its peers: which peers and paths,
//! the remote commands, and the decisions between the network calls that
//! app/ makes.
use vstd::prelude::*;
use crate::paths::{join, join_path};
use crate::schema::{Host, LinkKind, SshPath};
use crate::schema::host::{path_views, spec_ssh_paths, PathView};
use crate::text::{
    chars_of, concat2, concat3, join as join_text, join_strings, owned, push_char, push_str,
    str_eq, string_of, trim, trim_chars, views,
};

verus! {

/// The peers that took the key, those skipped, and those that failed, one
/// line each.
pub struct DistributeReport {
    pub ok: Vec<String>,
    pub skip: Vec<String>,
    pub fail: Vec<String>,
}

pub open spec fn report_lines(r: DistributeReport) -> int {
    (r.ok@.len() + r.skip@.len() + r.fail@.len()) as int
}

/// `~/.ssh/id_ed25519.pub` under the home directory `home`.
pub fn default_pubkey(home: &str) -> (r: String)
    ensures
        r@ == join_path(home@, ".ssh/id_ed25519.pub"@),
{
    join(home, ".ssh/id_ed25519.pub")
}

// ---------------------------------------------------------------------------
// Peers and paths
// ---------------------------------------------------------------------------

/// A host that takes the key: not this machine, and reachable by SSH.
pub open spec fn is_key_peer(h: Host, self_name: Seq<char>) -> bool {
    h.name@ != self_name && spec_ssh_paths(h).len() > 0
}

pub open spec fn key_peers_upto(hosts: Seq<Host>, self_name: Seq<char>, n: int) -> Seq<int>
    decreases n,
{
    if n <= 0 {
        seq![]
    } else {
        let r = key_peers_upto(hosts, self_name, n - 1);
        if is_key_peer(hosts[n - 1], self_name) {
            r.push(n - 1)
        } else {
            r
        }
    }
}

/// The indices of the hosts that take the key, in inventory order.
pub open spec fn spec_key_peers(hosts: Seq<Host>, self_name: Seq<char>) -> Seq<int> {
    key_peers_upto(hosts, self_name, hosts.len() as int)
}

pub open spec fn usize_ints(v: Seq<usize>) -> Seq<int> {
    v.map_values(|i: usize| i as int)
}

proof fn lemma_key_peers_bound(hosts: Seq<Host>, self_name: Seq<char>, n: int)
    requires
        0 <= n <= hosts.len(),
    ensures
        forall|k: int| 0 <= k < key_peers_upto(hosts, self_name, n).len() ==> 0 <= #[trigger] key_peers_upto(hosts, self_name, n)[k] < n,
    decreases n,
{
    if n > 0 {
        lemma_key_peers_bound(hosts, self_name, n - 1);
        let r = key_peers_upto(hosts, self_name, n - 1);
        assert forall|k: int| 0 <= k < key_peers_upto(hosts, self_name, n).len() implies 0
            <= #[trigger] key_peers_upto(hosts, self_name, n)[k] < n by {
            if k < r.len() {
                assert(key_peers_upto(hosts, self_name, n)[k] == r[k]);
            }
        }
    }
}

/// The hosts (by index) that take this machine's key.
pub fn key_peers(hosts: &[Host], self_name: &str) -> (r: Vec<usize>)
    ensures
        usize_ints(r@) == spec_key_peers(hosts@, self_name@),
        forall|k: int| 0 <= k < r@.len() ==> r@[k] < hosts@.len(),
{
    let mut r: Vec<usize> = Vec::new();
    let mut i: usize = 0;
    while i < hosts.len()
        invariant
            i <= hosts.len(),
            usize_ints(r@) == key_peers_upto(hosts@, self_name@, i as int),
        decreases hosts.len() - i,
    {
        let ghost before = usize_ints(r@);
        if !str_eq(hosts[i].name.as_str(), self_name) && hosts[i].has_network() {
            r.push(i);
            assert(usize_ints(r@) =~= before.push(i as int));
        }
        i = i + 1;
    }
    proof {
        lemma_key_peers_bound(hosts@, self_name@, hosts@.len() as int);
        assert forall|k: int| 0 <= k < r@.len() implies r@[k] < hosts@.len() by {
            assert(usize_ints(r@)[k] == r@[k] as int);
        }
    }
    r
}

pub open spec fn preferred_upto(ps: Seq<PathView>, n: int) -> Seq<PathView>
    decreases n,
{
    if n <= 0 {
        seq![]
    } else {
        let r = preferred_upto(ps, n - 1);
        if ps[n - 1].2 == LinkKind::Lan || ps[n - 1].2 == LinkKind::Thunderbolt {
            r.push(ps[n - 1])
        } else {
            r
        }
    }
}

/// The first VPN path at or after `i`.
pub open spec fn first_vpn_from(ps: Seq<PathView>, i: int) -> Option<PathView>
    decreases ps.len() - i,
{
    if i < 0 || i >= ps.len() {
        None
    } else if ps[i].2 == LinkKind::Vpn {
        Some(ps[i])
    } else {
        first_vpn_from(ps, i + 1)
    }
}

/// The paths the key is copied over: the LAN and Thunderbolt paths (system
/// sshd), else the first VPN path.
pub open spec fn spec_copy_targets(ps: Seq<PathView>) -> Seq<PathView> {
    let p = preferred_upto(ps, ps.len() as int);
    if p.len() > 0 {
        p
    } else {
        match first_vpn_from(ps, 0) {
            Some(v) => seq![v],
            None => seq![],
        }
    }
}

proof fn lemma_preferred(ps: Seq<PathView>, n: int)
    requires
        0 <= n <= ps.len(),
    ensures
        forall|x: PathView| #[trigger] preferred_upto(ps, n).contains(x) <==> exists|k: int|
            0 <= k < n && ps[k] == x && (x.2 == LinkKind::Lan || x.2 == LinkKind::Thunderbolt),
        preferred_upto(ps, n).len() <= n,
    decreases n,
{
    if n > 0 {
        lemma_preferred(ps, n - 1);
        let r = preferred_upto(ps, n - 1);
        let x0 = ps[n - 1];
        assert forall|x: PathView| #[trigger] preferred_upto(ps, n).contains(x) <==> exists|k: int|
            0 <= k < n && ps[k] == x && (x.2 == LinkKind::Lan || x.2 == LinkKind::Thunderbolt) by {
            if x0.2 == LinkKind::Lan || x0.2 == LinkKind::Thunderbolt {
                let r2 = r.push(x0);
                if r2.contains(x) {
                    let m = choose|m: int| 0 <= m < r2.len() && r2[m] == x;
                    if m < r.len() {
                        assert(r[m] == x);
                        assert(r.contains(x));
                    }
                }
                if r.contains(x) {
                    let m = choose|m: int| 0 <= m < r.len() && r[m] == x;
                    assert(r2[m] == x);
                }
                if x == x0 {
                    assert(r2[r.len() as int] == x);
                }
            }
        }
    } else {
        assert(preferred_upto(ps, 0) =~= Seq::<PathView>::empty());
    }
}

proof fn lemma_first_vpn(ps: Seq<PathView>, i: int, k0: int)
    requires
        0 <= i <= k0 < ps.len(),
        ps[k0].2 == LinkKind::Vpn,
        forall|m: int| i <= m < k0 ==> ps[m].2 != LinkKind::Vpn,
    ensures
        first_vpn_from(ps, i) == Some(ps[k0]),
    decreases k0 - i,
{
    if i < k0 {
        lemma_first_vpn(ps, i + 1, k0);
    }
}

/// Which paths the key is copied over, among those that answered: every LAN
/// and Thunderbolt path, and only those, when there is one; and some path
/// whenever any answered.
pub proof fn law_copy_targets(ps: Seq<PathView>)
    ensures
        (exists|k: int| 0 <= k < ps.len() && (ps[k].2 == LinkKind::Lan || ps[k].2 == LinkKind::Thunderbolt))
            ==> forall|x: PathView| #[trigger] spec_copy_targets(ps).contains(x) <==> exists|k: int|
            0 <= k < ps.len() && ps[k] == x && (x.2 == LinkKind::Lan || x.2 == LinkKind::Thunderbolt),
        ps.len() > 0 ==> spec_copy_targets(ps).len() > 0,
{
    lemma_preferred(ps, ps.len() as int);
    let p = preferred_upto(ps, ps.len() as int);
    if exists|k: int| 0 <= k < ps.len() && (ps[k].2 == LinkKind::Lan || ps[k].2 == LinkKind::Thunderbolt) {
        let k = choose|k: int| 0 <= k < ps.len() && (ps[k].2 == LinkKind::Lan || ps[k].2 == LinkKind::Thunderbolt);
        assert(p.contains(ps[k]));
        assert(p.len() > 0);
    }
    if ps.len() > 0 && p.len() == 0 {
        // No LAN or Thunderbolt path answered, so the first path is a VPN one.
        assert(ps[0].2 == LinkKind::Vpn) by {
            if ps[0].2 == LinkKind::Lan || ps[0].2 == LinkKind::Thunderbolt {
                assert(p.contains(ps[0]));
            }
        }
        lemma_first_vpn(ps, 0, 0);
    }
}

/// A peer that answered on no LAN or Thunderbolt path gets the key over its
/// first VPN path, and over that path alone.
pub proof fn law_copy_targets_vpn_fallback(ps: Seq<PathView>, k0: int)
    requires
        0 <= k0 < ps.len(),
        ps[k0].2 == LinkKind::Vpn,
        forall|m: int| 0 <= m < k0 ==> ps[m].2 != LinkKind::Vpn,
        forall|m: int| 0 <= m < ps.len() ==> ps[m].2 != LinkKind::Lan && ps[m].2 != LinkKind::Thunderbolt,
    ensures
        spec_copy_targets(ps) == seq![ps[k0]],
{
    lemma_preferred(ps, ps.len() as int);
    let p = preferred_upto(ps, ps.len() as int);
    if p.len() > 0 {
        assert(p.contains(p[0]));
        let k = choose|k: int|
            0 <= k < ps.len() && ps[k] == p[0] && (p[0].2 == LinkKind::Lan || p[0].2 == LinkKind::Thunderbolt);
    }
    lemma_first_vpn(ps, 0, k0);
}

/// Among the paths that answered on TCP/22, those to copy the key over.
pub fn copy_targets(reachable: &[SshPath]) -> (r: Vec<SshPath>)
    ensures
        path_views(r@) == spec_copy_targets(path_views(reachable@)),
{
    let ghost ps = path_views(reachable@);
    let mut r: Vec<SshPath> = Vec::new();
    let mut i: usize = 0;
    while i < reachable.len()
        invariant
            i <= reachable.len(),
            ps == path_views(reachable@),
            path_views(r@) == preferred_upto(ps, i as int),
        decreases reachable.len() - i,
    {
        let ghost before = path_views(r@);
        if reachable[i].link.prefer_for_keys() {
            r.push(reachable[i].duplicate());
            assert(path_views(r@) =~= before.push(ps[i as int]));
        }
        i = i + 1;
    }
    if r.len() > 0 {
        return r;
    }
    assert(path_views(r@).len() == 0);
    let mut j: usize = 0;
    while j < reachable.len()
        invariant
            j <= reachable.len(),
            ps == path_views(reachable@),
            preferred_upto(ps, ps.len() as int).len() == 0,
            first_vpn_from(ps, j as int) == first_vpn_from(ps, 0),
        decreases reachable.len() - j,
    {
        if reachable[j].link == LinkKind::Vpn {
            let mut one: Vec<SshPath> = Vec::new();
            one.push(reachable[j].duplicate());
            assert(path_views(one@) =~= seq![ps[j as int]]);
            return one;
        }
        j = j + 1;
    }
    assert(path_views(r@) =~= Seq::<PathView>::empty());
    r
}

// ---------------------------------------------------------------------------
// Remote commands
// ---------------------------------------------------------------------------

/// The text of `s` inside single quotes, each `'` written `'"'"'`.
pub open spec fn quote_body(s: Seq<char>) -> Seq<char>
    decreases s.len(),
{
    if s.len() == 0 {
        seq![]
    } else {
        quote_body(s.drop_last()) + if s.last() == '\'' {
            "'\"'\"'"@
        } else {
            seq![s.last()]
        }
    }
}

/// `s` as one single-quoted shell word.
pub open spec fn spec_single_quote(s: Seq<char>) -> Seq<char> {
    seq!['\''] + quote_body(s) + seq!['\'']
}

pub fn shell_single_quote(s: &str) -> (r: String)
    ensures
        r@ == spec_single_quote(s@),
{
    let c = chars_of(s);
    let mut r = owned("'");
    proof {
        reveal_strlit("'");
    }
    let mut i: usize = 0;
    while i < c.len()
        invariant
            i <= c.len(),
            c@ == s@,
            r@ == seq!['\''] + quote_body(c@.subrange(0, i as int)),
        decreases c.len() - i,
    {
        assert(c@.subrange(0, i + 1).drop_last() =~= c@.subrange(0, i as int));
        if c[i] == '\'' {
            push_str(&mut r, "'\"'\"'");
        } else {
            push_char(&mut r, c[i]);
        }
        i = i + 1;
        assert(r@ =~= seq!['\''] + quote_body(c@.subrange(0, i as int)));
    }
    assert(c@.subrange(0, c.len() as int) =~= s@);
    push_char(&mut r, '\'');
    r
}

/// The key line of a public-key file: its trimmed text, unless empty.
pub fn pub_key_line(text: &str) -> (r: Option<String>)
    ensures
        trim(text@).len() == 0 ==> r is None,
        trim(text@).len() > 0 ==> (r matches Some(l) && l@ == trim(text@)),
{
    let t = trim_chars(chars_of(text).as_slice());
    if t.len() == 0 {
        None
    } else {
        Some(string_of(t.as_slice()))
    }
}

/// The remote command that succeeds when `authorized_keys` holds the key line.
pub fn authorized_check_command(key_line: &str) -> (r: String)
    ensures
        r@ == "grep -qxF "@ + spec_single_quote(key_line@) + " ~/.ssh/authorized_keys 2>/dev/null"@,
{
    let q = shell_single_quote(key_line);
    concat3("grep -qxF ", q.as_str(), " ~/.ssh/authorized_keys 2>/dev/null")
}

/// The remote command that adds the key line to `authorized_keys` unless it
/// is there, creating `~/.ssh` with private modes.
pub fn install_key_command(key_line: &str) -> (r: String)
    ensures
        r@ == "mkdir -p ~/.ssh && chmod 700 ~/.ssh && touch ~/.ssh/authorized_keys && chmod 600 ~/.ssh/authorized_keys && grep -qxF "@
            + spec_single_quote(key_line@) + " ~/.ssh/authorized_keys || echo "@ + spec_single_quote(
            key_line@,
        ) + " >> ~/.ssh/authorized_keys"@,
{
    let q = shell_single_quote(key_line);
    let mut r = owned(
        "mkdir -p ~/.ssh && chmod 700 ~/.ssh && touch ~/.ssh/authorized_keys && chmod 600 ~/.ssh/authorized_keys && grep -qxF ",
    );
    push_str(&mut r, q.as_str());
    push_str(&mut r, " ~/.ssh/authorized_keys || echo ");
    push_str(&mut r, q.as_str());
    push_str(&mut r, " >> ~/.ssh/authorized_keys");
    r
}

pub open spec fn views_of(v: Seq<&'static str>) -> Seq<Seq<char>> {
    v.map_values(|s: &'static str| s@)
}

/// `ssh` options for a call that must not prompt.
pub fn ssh_batch_opts() -> (r: Vec<&'static str>)
    ensures
        views_of(r@) == seq![
            "-o"@,
            "ConnectTimeout=8"@,
            "-o"@,
            "ConnectionAttempts=1"@,
            "-o"@,
            "BatchMode=yes"@,
            "-o"@,
            "StrictHostKeyChecking=accept-new"@,
            "-o"@,
            "GSSAPIAuthentication=no"@,
        ],
{
    let r = vec![
        "-o",
        "ConnectTimeout=8",
        "-o",
        "ConnectionAttempts=1",
        "-o",
        "BatchMode=yes",
        "-o",
        "StrictHostKeyChecking=accept-new",
        "-o",
        "GSSAPIAuthentication=no",
    ];
    assert(views_of(r@) =~= seq![
        "-o"@,
        "ConnectTimeout=8"@,
        "-o"@,
        "ConnectionAttempts=1"@,
        "-o"@,
        "BatchMode=yes"@,
        "-o"@,
        "StrictHostKeyChecking=accept-new"@,
        "-o"@,
        "GSSAPIAuthentication=no"@,
    ]);
    r
}

/// `ssh` options for the one call that may ask for the login password.
pub fn ssh_interactive_opts() -> (r: Vec<&'static str>)
    ensures
        views_of(r@) == seq![
            "-o"@,
            "ConnectTimeout=20"@,
            "-o"@,
            "ConnectionAttempts=1"@,
            "-o"@,
            "NumberOfPasswordPrompts=1"@,
            "-o"@,
            "StrictHostKeyChecking=accept-new"@,
            "-o"@,
            "GSSAPIAuthentication=no"@,
            "-o"@,
            "PreferredAuthentications=publickey,keyboard-interactive,password"@,
            "-o"@,
            "LogLevel=ERROR"@,
        ],
{
    let r = vec![
        "-o",
        "ConnectTimeout=20",
        "-o",
        "ConnectionAttempts=1",
        "-o",
        "NumberOfPasswordPrompts=1",
        "-o",
        "StrictHostKeyChecking=accept-new",
        "-o",
        "GSSAPIAuthentication=no",
        "-o",
        "PreferredAuthentications=publickey,keyboard-interactive,password",
        "-o",
        "LogLevel=ERROR",
    ];
    assert(views_of(r@) =~= seq![
        "-o"@,
        "ConnectTimeout=20"@,
        "-o"@,
        "ConnectionAttempts=1"@,
        "-o"@,
        "NumberOfPasswordPrompts=1"@,
        "-o"@,
        "StrictHostKeyChecking=accept-new"@,
        "-o"@,
        "GSSAPIAuthentication=no"@,
        "-o"@,
        "PreferredAuthentications=publickey,keyboard-interactive,password"@,
        "-o"@,
        "LogLevel=ERROR"@,
    ]);
    r
}

// ---------------------------------------------------------------------------
// Copying the key over one path
// ---------------------------------------------------------------------------

/// What app/ learned from the last call while copying the key over one path.
pub enum CopyIdEvent {
    /// Nothing yet.
    Start,
    /// Whether the peer's `authorized_keys` already holds the key.
    AlreadyAuthorized(bool),
    /// `ssh-copy-id` (or the batch install) in batch mode: whether it took,
    /// or why it could not run.
    BatchCopied(Result<bool, String>),
    /// Whether standard input is a terminal.
    TerminalChecked(bool),
    /// The install that may ask for the password: whether it took, or why it
    /// could not run.
    PasswordCopied(Result<bool, String>),
}

/// What app/ does next while copying the key over one path.
pub enum CopyIdAction {
    /// Done: how the key got there (`already`, `key`, `password`), or why not.
    Done(Result<String, String>),
    CheckAuthorized,
    BatchCopy,
    CheckTerminal,
    /// Say which machine wants the password, then install.
    PromptAndCopy,
}

pub open spec fn done_ok(a: CopyIdAction, how: Seq<char>) -> bool {
    a matches CopyIdAction::Done(Ok(h)) && h@ == how
}

pub open spec fn done_err(a: CopyIdAction, why: Seq<char>) -> bool {
    a matches CopyIdAction::Done(Err(e)) && e@ == why
}

/// The next step of copying the key to `alias`, after `event`.
pub fn ssh_copy_id(alias: &str, event: CopyIdEvent) -> (a: CopyIdAction)
    ensures
        match event {
            CopyIdEvent::Start => a is CheckAuthorized,
            CopyIdEvent::AlreadyAuthorized(yes) => if yes {
                done_ok(a, "already"@)
            } else {
                a is BatchCopy
            },
            CopyIdEvent::BatchCopied(Ok(took)) => if took {
                done_ok(a, "key"@)
            } else {
                a is CheckTerminal
            },
            CopyIdEvent::BatchCopied(Err(e)) => done_err(a, e@),
            CopyIdEvent::TerminalChecked(tty) => if tty {
                a is PromptAndCopy
            } else {
                done_err(a, alias@ + ": first copy needs a TTY for the login password"@)
            },
            CopyIdEvent::PasswordCopied(Ok(took)) => if took {
                done_ok(a, "password"@)
            } else {
                done_err(
                    a,
                    "could not install on "@ + alias@ + " (wrong password or sshd refused pubkey)"@,
                )
            },
            CopyIdEvent::PasswordCopied(Err(e)) => done_err(a, e@),
        },
{
    match event {
        CopyIdEvent::Start => CopyIdAction::CheckAuthorized,
        CopyIdEvent::AlreadyAuthorized(yes) => {
            if yes {
                CopyIdAction::Done(Ok(owned("already")))
            } else {
                CopyIdAction::BatchCopy
            }
        },
        CopyIdEvent::BatchCopied(Ok(took)) => {
            if took {
                CopyIdAction::Done(Ok(owned("key")))
            } else {
                CopyIdAction::CheckTerminal
            }
        },
        CopyIdEvent::BatchCopied(Err(e)) => CopyIdAction::Done(Err(e)),
        CopyIdEvent::TerminalChecked(tty) => {
            if tty {
                CopyIdAction::PromptAndCopy
            } else {
                CopyIdAction::Done(
                    Err(concat2(alias, ": first copy needs a TTY for the login password")),
                )
            }
        },
        CopyIdEvent::PasswordCopied(Ok(took)) => {
            if took {
                CopyIdAction::Done(Ok(owned("password")))
            } else {
                CopyIdAction::Done(
                    Err(
                        concat3(
                            "could not install on ",
                            alias,
                            " (wrong password or sshd refused pubkey)",
                        ),
                    ),
                )
            }
        },
        CopyIdEvent::PasswordCopied(Err(e)) => CopyIdAction::Done(Err(e)),
    }
}

// ---------------------------------------------------------------------------
// Going through the peers
// ---------------------------------------------------------------------------

/// Where a key distribution stands: the peers (host indices) in order, the
/// one being handled, and, while copying to it, its paths and the last error.
pub struct DistributeRun {
    pub yes: bool,
    pub peers: Vec<usize>,
    pub next_peer: usize,
    pub copying: bool,
    pub targets: Vec<SshPath>,
    pub next_target: usize,
    pub last_err: String,
    pub report: DistributeReport,
}

/// What app/ does next in a key distribution.
pub enum DistributeAction {
    /// Probe TCP/22 on these paths of host `host` and report those that answer.
    Probe { host: usize, paths: Vec<SshPath> },
    /// Copy the key to host `host` over `path` (see `ssh_copy_id`).
    Copy { host: usize, path: SshPath },
    /// Done: the report is final.
    Finish,
}

/// What app/ learned from the last network step of a key distribution.
pub enum DistributeEvent {
    /// The paths that answered on TCP/22.
    Probed(Vec<SshPath>),
    /// How copying over the current path ended.
    Copied(Result<String, String>),
}

pub open spec fn run_wf(run: DistributeRun, hosts: Seq<Host>) -> bool {
    &&& forall|k: int| 0 <= k < run.peers@.len() ==> #[trigger] run.peers@[k] < hosts.len()
    &&& run.next_peer <= run.peers@.len()
    &&& run.copying ==> run.next_peer < run.peers@.len() && run.next_target < run.targets@.len()
    &&& run.peers@.len() > 0 ==> report_lines(run.report) == run.next_peer
}

/// The action that moves to the next peer: probe it, or finish.
pub open spec fn next_action_is(run: DistributeRun, hosts: Seq<Host>, a: DistributeAction) -> bool {
    if run.next_peer < run.peers@.len() {
        a matches DistributeAction::Probe { host, paths } && host == run.peers@[run.next_peer as int]
            && path_views(paths@) == spec_ssh_paths(hosts[host as int])
    } else {
        a is Finish
    }
}

pub open spec fn aliases(t: Seq<PathView>) -> Seq<Seq<char>> {
    t.map_values(|p: PathView| p.0)
}

/// The line for a peer the key would be copied to (without `--yes`).
pub open spec fn would_copy_line(name: Seq<char>, t: Seq<PathView>) -> Seq<char> {
    name + " → would copy via "@ + join_text(aliases(t), ","@)
}

fn next_action(run: &DistributeRun, hosts: &[Host]) -> (a: DistributeAction)
    requires
        run_wf(*run, hosts@),
    ensures
        next_action_is(*run, hosts@, a),
{
    if run.next_peer < run.peers.len() {
        let h = run.peers[run.next_peer];
        DistributeAction::Probe { host: h, paths: hosts[h].ssh_paths() }
    } else {
        DistributeAction::Finish
    }
}

fn empty_report() -> (r: DistributeReport)
    ensures
        r.ok@.len() == 0,
        r.skip@.len() == 0,
        r.fail@.len() == 0,
{
    DistributeReport { ok: Vec::new(), skip: Vec::new(), fail: Vec::new() }
}

/// Starts copying this machine's key (`pubkey`, a file when `pubkey_is_file`)
/// to the peers among `hosts`: every host but `self_name` with an SSH path.
pub fn distribute(hosts: &[Host], self_name: &str, yes: bool, pubkey: &str, pubkey_is_file: bool) -> (r: (
    DistributeRun,
    DistributeAction,
))
    ensures
        run_wf(r.0, hosts@),
        r.0.yes == yes,
        !pubkey_is_file ==> r.1 is Finish && r.0.report.ok@.len() == 0 && r.0.report.skip@.len()
            == 0 && views(r.0.report.fail@) == seq![
            "no public key at "@ + pubkey@ + " — run: ssh-keygen -t ed25519"@,
        ],
        pubkey_is_file && spec_key_peers(hosts@, self_name@).len() == 0 ==> r.1 is Finish
            && r.0.report.ok@.len() == 0 && r.0.report.fail@.len() == 0 && views(r.0.report.skip@)
            == seq!["no peers with [[ssh]] in hosts/"@],
        pubkey_is_file && spec_key_peers(hosts@, self_name@).len() > 0 ==> usize_ints(r.0.peers@)
            == spec_key_peers(hosts@, self_name@) && r.0.next_peer == 0 && !r.0.copying
            && report_lines(r.0.report) == 0 && next_action_is(r.0, hosts@, r.1),
{
    let mut report = empty_report();
    if !pubkey_is_file {
        report.fail.push(concat3("no public key at ", pubkey, " — run: ssh-keygen -t ed25519"));
        assert(views(report.fail@) =~= seq![
            "no public key at "@ + pubkey@ + " — run: ssh-keygen -t ed25519"@,
        ]);
        let run = DistributeRun {
            yes,
            peers: Vec::new(),
            next_peer: 0,
            copying: false,
            targets: Vec::new(),
            next_target: 0,
            last_err: String::new(),
            report,
        };
        return (run, DistributeAction::Finish);
    }
    let peers = key_peers(hosts, self_name);
    if peers.len() == 0 {
        report.skip.push(owned("no peers with [[ssh]] in hosts/"));
        assert(views(report.skip@) =~= seq!["no peers with [[ssh]] in hosts/"@]);
        let run = DistributeRun {
            yes,
            peers,
            next_peer: 0,
            copying: false,
            targets: Vec::new(),
            next_target: 0,
            last_err: String::new(),
            report,
        };
        return (run, DistributeAction::Finish);
    }
    let run = DistributeRun {
        yes,
        peers,
        next_peer: 0,
        copying: false,
        targets: Vec::new(),
        next_target: 0,
        last_err: String::new(),
        report,
    };
    let a = next_action(&run, hosts);
    (run, a)
}

/// `views(v)` with `x` pushed.
pub open spec fn pushed(before: Seq<String>, after: Seq<String>, x: Seq<char>) -> bool {
    views(after) == views(before).push(x)
}

/// One step of a key distribution after `event`: the peer being handled is
/// reported once (copied, would copy, offline, or failed) and the run moves on
/// to the next peer, or the next path is tried.
pub fn distribute_step(run: &mut DistributeRun, hosts: &[Host], event: DistributeEvent) -> (a:
    DistributeAction)
    requires
        run_wf(*old(run), hosts@),
        old(run).next_peer < old(run).peers@.len(),
        old(run).copying <==> event is Copied,
    ensures
        run_wf(*final(run), hosts@),
        final(run).yes == old(run).yes,
        final(run).peers@ == old(run).peers@,
        ({
            let name = hosts@[old(run).peers@[old(run).next_peer as int] as int].name@;
            let o = old(run).report;
            let f = final(run).report;
            let moved_on = final(run).next_peer == old(run).next_peer + 1 && !final(run).copying
                && next_action_is(*final(run), hosts@, a);
            match event {
                DistributeEvent::Probed(reach) => {
                    let t = spec_copy_targets(path_views(reach@));
                    if reach@.len() == 0 {
                        moved_on && f.ok@ == o.ok@ && f.fail@ == o.fail@ && pushed(
                            o.skip@,
                            f.skip@,
                            name + " (offline)"@,
                        )
                    } else if !old(run).yes {
                        moved_on && f.skip@ == o.skip@ && f.fail@ == o.fail@ && pushed(
                            o.ok@,
                            f.ok@,
                            would_copy_line(name, t),
                        )
                    } else if t.len() == 0 {
                        moved_on && f.ok@ == o.ok@ && f.skip@ == o.skip@ && pushed(
                            o.fail@,
                            f.fail@,
                            name + " ()"@,
                        )
                    } else {
                        final(run).copying && final(run).next_peer == old(run).next_peer
                            && path_views(final(run).targets@) == t && final(run).next_target == 0
                            && f == o && (a matches DistributeAction::Copy { host, path } && host
                            == old(run).peers@[old(run).next_peer as int] && path@ == t[0])
                    }
                },
                DistributeEvent::Copied(Ok(how)) => moved_on && f.skip@ == o.skip@ && f.fail@
                    == o.fail@ && pushed(
                    o.ok@,
                    f.ok@,
                    name + " via "@ + old(run).targets@[old(run).next_target as int].alias@ + " ("@
                        + how@ + ")"@,
                ),
                DistributeEvent::Copied(Err(e)) => if old(run).next_target + 1 < old(
                    run,
                ).targets@.len() {
                    final(run).copying && final(run).next_peer == old(run).next_peer
                        && final(run).targets@ == old(run).targets@ && final(run).next_target
                        == old(run).next_target + 1 && final(run).last_err@ == e@ && f == o && (
                    a matches DistributeAction::Copy { host, path } && host == old(run).peers@[old(
                        run,
                    ).next_peer as int] && path@ == old(run).targets@[old(run).next_target + 1]@)
                } else {
                    moved_on && f.ok@ == o.ok@ && f.skip@ == o.skip@ && pushed(
                        o.fail@,
                        f.fail@,
                        name + " ("@ + e@ + ")"@,
                    )
                },
            }
        }),
{
    let np = run.next_peer;
    let n_peers = run.peers.len();
    assert(np < n_peers);
    let h = run.peers[np];
    let name = hosts[h].name.as_str();
    let ghost o = run.report;
    match event {
        DistributeEvent::Probed(reach) => {
            if reach.len() == 0 {
                let line = concat2(name, " (offline)");
                run.report.skip.push(line);
                assert(views(run.report.skip@) =~= views(o.skip@).push(name@ + " (offline)"@));
                run.next_peer = np + 1;
                return next_action(run, hosts);
            }
            let t = copy_targets(reach.as_slice());
            if !run.yes {
                let mut names: Vec<String> = Vec::new();
                let mut i: usize = 0;
                while i < t.len()
                    invariant
                        i <= t.len(),
                        views(names@) == aliases(path_views(t@)).subrange(0, i as int),
                    decreases t.len() - i,
                {
                    assert(path_views(t@)[i as int] == t@[i as int]@);
                    let ghost before = views(names@);
                    names.push(owned(t[i].alias.as_str()));
                    assert(views(names@) =~= before.push(t@[i as int].alias@));
                    i = i + 1;
                    assert(views(names@) =~= aliases(path_views(t@)).subrange(0, i as int));
                }
                assert(aliases(path_views(t@)).subrange(0, t.len() as int) =~= aliases(
                    path_views(t@),
                ));
                let joined = join_strings(names.as_slice(), ",");
                let line = concat3(name, " → would copy via ", joined.as_str());
                run.report.ok.push(line);
                assert(views(run.report.ok@) =~= views(o.ok@).push(
                    would_copy_line(name@, path_views(t@)),
                ));
                run.next_peer = np + 1;
                return next_action(run, hosts);
            }
            if t.len() == 0 {
                let line = concat2(name, " ()");
                run.report.fail.push(line);
                assert(views(run.report.fail@) =~= views(o.fail@).push(name@ + " ()"@));
                run.next_peer = np + 1;
                return next_action(run, hosts);
            }
            let first = t[0].duplicate();
            assert(path_views(t@)[0] == t@[0]@);
            run.targets = t;
            run.next_target = 0;
            run.copying = true;
            run.last_err = String::new();
            DistributeAction::Copy { host: h, path: first }
        },
        DistributeEvent::Copied(Ok(how)) => {
            let mut line = concat3(name, " via ", run.targets[run.next_target].alias.as_str());
            push_str(&mut line, " (");
            push_str(&mut line, how.as_str());
            push_str(&mut line, ")");
            run.report.ok.push(line);
            assert(views(run.report.ok@) =~= views(o.ok@).push(
                name@ + " via "@ + run.targets@[run.next_target as int].alias@ + " ("@ + how@
                    + ")"@,
            ));
            run.copying = false;
            run.next_peer = np + 1;
            next_action(run, hosts)
        },
        DistributeEvent::Copied(Err(e)) => {
            let n_targets = run.targets.len();
            assert(run.next_target < n_targets);
            if run.next_target + 1 < n_targets {
                run.next_target = run.next_target + 1;
                let path = run.targets[run.next_target].duplicate();
                run.last_err = e;
                DistributeAction::Copy { host: h, path }
            } else {
                let line = concat3(name, " (", e.as_str());
                let mut line = line;
                push_str(&mut line, ")");
                run.report.fail.push(line);
                assert(views(run.report.fail@) =~= views(o.fail@).push(name@ + " ("@ + e@ + ")"@));
                run.last_err = e;
                run.copying = false;
                run.next_peer = np + 1;
                next_action(run, hosts)
            }
        },
    }
}

/// A key distribution that has gone through every peer has reported each of
/// them exactly once.
pub proof fn law_each_peer_reported_once(run: DistributeRun, hosts: Seq<Host>)
    requires
        run_wf(run, hosts),
        run.peers@.len() > 0,
        run.next_peer == run.peers@.len(),
    ensures
        report_lines(run.report) == run.peers@.len(),
{
}

} // verus!
