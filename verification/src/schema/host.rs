//! Host files (`~/.rig-hosts/<name>.toml`): identity, SSH paths and per-host overrides.
use vstd::prelude::*;
use super::role::OsKind;
use crate::error::RigError;
use crate::text::{
    chars_of, chars_eq, concat2, concat3, decimal, decimal_string, ends_with, ends_with_chars,
    has_char, is_whitespace, is_ws, join, join_strings, lines, lines_of, push_str, split_char,
    split_chars, starts_with, starts_with_chars, str_eq, string_of, trim, trim_chars, trim_start,
    trim_start_chars, trim_str, views,
};

verus! {

/// One machine of the inventory.
#[derive(Debug, Clone)]
pub struct Host {
    pub name: String,
    pub role: String,
    pub os: Option<OsKind>,
    pub shell: Option<ShellKind>,
    pub user: Option<String>,
    /// User-chosen SSH Host aliases (`alias` + `ip` + `link`).
    pub ssh: Vec<SshPath>,
    /// Legacy flat address (implies alias `{name}-ts`). Prefer `[[ssh]]`.
    pub vpn: Option<String>,
    /// Legacy flat address (implies alias `{name}-lan`). Prefer `[[ssh]]`.
    pub lan: Option<String>,
    /// Legacy flat address (implies alias `{name}-tb`). Prefer `[[ssh]]`.
    pub thunderbolt: Option<String>,
    pub packages: HostPackages,
    /// Optional per-host feature overrides (unset keys keep the role).
    pub features: HostFeatures,
    pub schema_version: u32,
}

/// One reachable path for this machine, with a user-chosen SSH `Host` alias.
#[derive(Debug, Clone)]
pub struct SshPath {
    /// SSH config `Host` name (fully user-chosen, e.g. `mini-ts` or `lab`).
    pub alias: String,
    pub ip: String,
    /// How this path is wired — drives TB apply + keys preference.
    pub link: LinkKind,
}

/// An SSH path as values: alias, address, link.
pub type PathView = (Seq<char>, Seq<char>, LinkKind);

impl View for SshPath {
    type V = PathView;

    open spec fn view(&self) -> PathView {
        (self.alias@, self.ip@, self.link)
    }
}

pub open spec fn path_views(s: Seq<SshPath>) -> Seq<PathView> {
    s.map_values(|p: SshPath| p@)
}

impl SshPath {
    /// A copy with the same alias, address and link.
    pub fn duplicate(&self) -> (r: SshPath)
        ensures
            r@ == self@,
    {
        SshPath { alias: self.alias.clone(), ip: self.ip.clone(), link: self.link }
    }
}

/// A copy of a list of paths.
pub fn duplicate_paths(v: &Vec<SshPath>) -> (out: Vec<SshPath>)
    ensures
        path_views(out@) == path_views(v@),
{
    let mut out: Vec<SshPath> = Vec::new();
    let mut i: usize = 0;
    while i < v.len()
        invariant
            i <= v.len(),
            path_views(out@) == path_views(v@.subrange(0, i as int)),
        decreases v.len() - i,
    {
        let ghost before = path_views(out@);
        out.push(v[i].duplicate());
        assert(path_views(out@) =~= before.push(v@[i as int]@));
        assert(path_views(v@.subrange(0, i + 1)) =~= path_views(v@.subrange(0, i as int)).push(
            v@[i as int]@,
        ));
        i = i + 1;
    }
    assert(v@.subrange(0, v.len() as int) =~= v@);
    out
}

#[derive(Debug, Clone, Copy, PartialEq, Eq, Structural)]
pub enum LinkKind {
    Vpn,
    Lan,
    Thunderbolt,
}

/// The name of a link in host files.
pub open spec fn link_name(k: LinkKind) -> Seq<char> {
    match k {
        LinkKind::Vpn => "vpn"@,
        LinkKind::Lan => "lan"@,
        LinkKind::Thunderbolt => "tb"@,
    }
}

/// The words that describe a link in SSH config comments.
pub open spec fn link_comment(k: LinkKind) -> Seq<char> {
    match k {
        LinkKind::Vpn => "Tailscale / VPN"@,
        LinkKind::Lan => "LAN"@,
        LinkKind::Thunderbolt => "Thunderbolt"@,
    }
}

impl LinkKind {
    pub fn as_str(self) -> (s: &'static str)
        ensures
            s@ == link_name(self),
    {
        match self {
            LinkKind::Vpn => "vpn",
            LinkKind::Lan => "lan",
            LinkKind::Thunderbolt => "tb",
        }
    }

    pub fn comment(self) -> (s: &'static str)
        ensures
            s@ == link_comment(self),
    {
        match self {
            LinkKind::Vpn => "Tailscale / VPN",
            LinkKind::Lan => "LAN",
            LinkKind::Thunderbolt => "Thunderbolt",
        }
    }

    /// Prefer LAN/TB for authorized_keys (system sshd) over Tailscale.
    pub fn prefer_for_keys(self) -> (b: bool)
        ensures
            b == (self == LinkKind::Lan || self == LinkKind::Thunderbolt),
    {
        match self {
            LinkKind::Lan | LinkKind::Thunderbolt => true,
            LinkKind::Vpn => false,
        }
    }
}

/// The schema version written when a host file omits it.
pub fn default_schema_version() -> (v: u32)
    ensures
        v == 1,
{
    1
}

#[derive(Debug, Clone, Copy, Default, PartialEq, Eq, Structural)]
pub struct HostFeatures {
    pub gui: Option<bool>,
    pub cursor: Option<bool>,
    pub remote_login: Option<bool>,
    pub screen_sharing: Option<bool>,
    pub tailscale: Option<bool>,
    pub thunderbolt: Option<bool>,
    pub stay_awake: Option<bool>,
}

#[derive(Debug, Clone, Default)]
pub struct HostPackages {
    pub add: Vec<String>,
    pub remove: Vec<String>,
}

#[derive(Debug, Clone, Copy, PartialEq, Eq, Structural)]
pub enum ShellKind {
    Zsh,
    Bash,
}

impl ShellKind {
    pub fn as_str(self) -> (s: &'static str)
        ensures
            s@ == (match self {
                ShellKind::Zsh => "zsh"@,
                ShellKind::Bash => "bash"@,
            }),
    {
        match self {
            ShellKind::Zsh => "zsh",
            ShellKind::Bash => "bash",
        }
    }
}

// ---------------------------------------------------------------------------
// Model of the resolved SSH paths and of validation
// ---------------------------------------------------------------------------

pub open spec fn legacy_path(name: Seq<char>, ip: Option<String>, suffix: Seq<char>, link: LinkKind) -> Seq<PathView> {
    match ip {
        Some(a) => seq![(name + suffix, a@, link)],
        None => seq![],
    }
}

/// `[[ssh]]` when present, else the legacy vpn, lan and thunderbolt addresses in that order.
pub open spec fn spec_ssh_paths(h: Host) -> Seq<PathView> {
    if h.ssh@.len() > 0 {
        path_views(h.ssh@)
    } else {
        legacy_path(h.name@, h.vpn, "-ts"@, LinkKind::Vpn) + legacy_path(
            h.name@,
            h.lan,
            "-lan"@,
            LinkKind::Lan,
        ) + legacy_path(h.name@, h.thunderbolt, "-tb"@, LinkKind::Thunderbolt)
    }
}

/// The address of the first Thunderbolt path at or after `i`.
pub open spec fn first_thunderbolt(ps: Seq<PathView>, i: int) -> Option<Seq<char>>
    decreases ps.len() - i,
{
    if i < 0 || i >= ps.len() {
        None
    } else if ps[i].2 == LinkKind::Thunderbolt {
        Some(ps[i].1)
    } else {
        first_thunderbolt(ps, i + 1)
    }
}

/// Empty once white space is trimmed.
pub open spec fn blank(s: Seq<char>) -> bool {
    trim(s).len() == 0
}

pub open spec fn has_ws(s: Seq<char>) -> bool {
    exists|k: int| 0 <= k < s.len() && is_ws(#[trigger] s[k])
}

/// Neither four dot-separated parts nor an IPv6 colon.
pub open spec fn ip_looks_invalid(ip: Seq<char>) -> bool {
    split_char(ip, '.').len() != 4 && !ip.contains(':')
}

/// The complaint about one SSH path of the file at `file`, if any.
pub open spec fn path_error(file: Seq<char>, p: PathView) -> Option<Seq<char>> {
    if blank(p.0) {
        Some(file + ": ssh.alias must not be empty"@)
    } else if has_ws(p.0) {
        Some(file + ": ssh.alias must not contain whitespace: "@ + p.0)
    } else if ip_looks_invalid(p.1) {
        Some(file + ": "@ + p.0 + " looks invalid: "@ + p.1)
    } else {
        None
    }
}

pub open spec fn first_path_error(file: Seq<char>, ps: Seq<PathView>, i: int) -> Option<
    Seq<char>,
>
    decreases ps.len() - i,
{
    if i < 0 || i >= ps.len() {
        None
    } else {
        match path_error(file, ps[i]) {
            Some(m) => Some(m),
            None => first_path_error(file, ps, i + 1),
        }
    }
}

/// The first problem of `h`, read from the file at `file`, in the order the checks run.
pub open spec fn validation_error(h: Host, file: Seq<char>) -> Option<Seq<char>> {
    if blank(h.name@) {
        Some(file + ": name must not be empty"@)
    } else if blank(h.role@) {
        Some(file + ": role must not be empty"@)
    } else if h.schema_version != 1 {
        Some(file + ": unsupported schema_version "@ + decimal(h.schema_version as nat))
    } else {
        first_path_error(file, spec_ssh_paths(h), 0)
    }
}

/// `opt.map(str::trim).filter(|s| !s.is_empty())` compared against the local user.
pub open spec fn spec_user_write_needed(toml_user: Option<Seq<char>>, local: Seq<char>) -> Option<
    Seq<char>,
> {
    match toml_user {
        Some(u) if trim(u).len() > 0 => if trim(u) == local {
            None
        } else {
            Some(trim(u) + " → "@ + local)
        },
        _ => Some("write "@ + local),
    }
}

pub open spec fn opt_view(o: Option<String>) -> Option<Seq<char>> {
    match o {
        Some(s) => Some(s@),
        None => None,
    }
}

/// `$SHELL` ending in `/bash` (or `bash` itself) means bash; anything else zsh.
pub open spec fn spec_detect_shell(shell_env: Seq<char>) -> ShellKind {
    if ends_with(shell_env, "/bash"@) || shell_env == "bash"@ {
        ShellKind::Bash
    } else {
        ShellKind::Zsh
    }
}

/// The build's target OS name: macOS, Linux, and macOS for anything else.
pub open spec fn spec_detect_os(target_os: Seq<char>) -> OsKind {
    if target_os == "linux"@ {
        OsKind::Linux
    } else {
        OsKind::Macos
    }
}

/// `$SHELL` (empty when unset) to a shell kind.
pub fn detect_shell(shell_env: &str) -> (k: ShellKind)
    ensures
        k == spec_detect_shell(shell_env@),
{
    let v = chars_of(shell_env);
    let suffix = chars_of("/bash");
    let bash = chars_of("bash");
    if ends_with_chars(v.as_slice(), suffix.as_slice()) || chars_eq(v.as_slice(), bash.as_slice()) {
        ShellKind::Bash
    } else {
        ShellKind::Zsh
    }
}

/// The target OS name (`std::env::consts::OS`) to an OS kind.
pub fn detect_os(target_os: &str) -> (k: OsKind)
    ensures
        k == spec_detect_os(target_os@),
{
    if str_eq(target_os, "linux") {
        OsKind::Linux
    } else {
        OsKind::Macos
    }
}

/// The local account name (`whoami::username`); it falls back to `"unknown"`.
#[verifier::external_body]
fn local_username() -> String {
    whoami::username()
}

fn legacy_push(out: &mut Vec<SshPath>, name: &String, ip: &Option<String>, suffix: &str, link: LinkKind)
    ensures
        path_views(final(out)@) == path_views(old(out)@) + legacy_path(name@, *ip, suffix@, link),
{
    let ghost before = path_views(out@);
    match ip {
        Some(a) => {
            out.push(SshPath { alias: concat2(name.as_str(), suffix), ip: a.clone(), link });
            assert(path_views(out@) =~= before + legacy_path(name@, *ip, suffix@, link));
        },
        None => {
            assert(path_views(out@) =~= before + legacy_path(name@, *ip, suffix@, link));
        },
    }
}

/// Whether any character of `s` is white space.
pub fn any_whitespace(s: &str) -> (b: bool)
    ensures
        b == has_ws(s@),
{
    let v = chars_of(s);
    let mut i: usize = 0;
    while i < v.len()
        invariant
            v@ == s@,
            i <= v.len(),
            forall|k: int| 0 <= k < i ==> !is_ws(v@[k]),
        decreases v.len() - i,
    {
        if is_whitespace(v[i]) {
            assert(is_ws(s@[i as int]));
            return true;
        }
        i = i + 1;
    }
    false
}

/// `s.trim().is_empty()`.
pub fn is_blank(s: &str) -> (b: bool)
    ensures
        b == blank(s@),
{
    let v = chars_of(s);
    let t = trim_chars(v.as_slice());
    t.len() == 0
}

/// `path: label looks invalid: ip` unless the address has four dotted parts or a colon.
fn validate_ip(path: &str, label: &str, ip: &str) -> (r: Result<(), RigError>)
    ensures
        match r {
            Ok(()) => !ip_looks_invalid(ip@),
            Err(e) => ip_looks_invalid(ip@) && e == RigError::Msg(e->Msg_0) && e->Msg_0@ == path@
                + ": "@ + label@ + " looks invalid: "@ + ip@,
        },
{
    let v = chars_of(ip);
    let parts = split_chars(v.as_slice(), '.');
    proof {
        assert(parts@.map_values(|l: Vec<char>| l@).len() == parts@.len());
    }
    if parts.len() != 4 && !has_char(v.as_slice(), ':') {
        let mut m = concat3(path, ": ", label);
        push_str(&mut m, " looks invalid: ");
        push_str(&mut m, ip);
        return Err(RigError::Msg(m));
    }
    Ok(())
}

fn check_path(path: &str, p: &SshPath) -> (r: Result<(), RigError>)
    ensures
        match r {
            Ok(()) => path_error(path@, p@) is None,
            Err(e) => path_error(path@, p@) == Some(e->Msg_0@) && e is Msg,
        },
{
    if is_blank(p.alias.as_str()) {
        return Err(RigError::Msg(concat2(path, ": ssh.alias must not be empty")));
    }
    if any_whitespace(p.alias.as_str()) {
        return Err(
            RigError::Msg(
                concat3(path, ": ssh.alias must not contain whitespace: ", p.alias.as_str()),
            ),
        );
    }
    validate_ip(path, p.alias.as_str(), p.ip.as_str())
}

impl Host {
    /// Checks the host read from the file at `path`: non-blank name and role,
    /// schema version 1, and for every SSH path a non-blank alias without white
    /// space and an address that looks like IPv4 or IPv6.
    pub fn validate(&self, path: &str) -> (r: Result<(), RigError>)
        ensures
            match r {
                Ok(()) => validation_error(*self, path@) is None,
                Err(e) => e is Msg && validation_error(*self, path@) == Some(e->Msg_0@),
            },
    {
        if is_blank(self.name.as_str()) {
            return Err(RigError::Msg(concat2(path, ": name must not be empty")));
        }
        if is_blank(self.role.as_str()) {
            return Err(RigError::Msg(concat2(path, ": role must not be empty")));
        }
        if self.schema_version != 1 {
            let mut m = concat2(path, ": unsupported schema_version ");
            let n = decimal_string(self.schema_version as u64);
            push_str(&mut m, n.as_str());
            return Err(RigError::Msg(m));
        }
        let paths = self.ssh_paths();
        let ghost ps = path_views(paths@);
        let mut i: usize = 0;
        while i < paths.len()
            invariant
                i <= paths.len(),
                ps == path_views(paths@),
                ps == spec_ssh_paths(*self),
                validation_error(*self, path@) == first_path_error(path@, ps, 0),
                first_path_error(path@, ps, i as int) == first_path_error(path@, ps, 0),
            decreases paths.len() - i,
        {
            assert(ps[i as int] == paths@[i as int]@);
            match check_path(path, &paths[i]) {
                Ok(()) => {},
                Err(e) => {
                    assert(first_path_error(path@, ps, i as int) == path_error(
                        path@,
                        ps[i as int],
                    ));
                    return Err(e);
                },
            }
            i = i + 1;
        }
        assert(first_path_error(path@, ps, i as int) is None);
        Ok(())
    }

    /// Resolved SSH paths: explicit `[[ssh]]` first, else legacy vpn/lan/thunderbolt.
    pub fn ssh_paths(&self) -> (out: Vec<SshPath>)
        ensures
            path_views(out@) == spec_ssh_paths(*self),
    {
        if self.ssh.len() > 0 {
            return duplicate_paths(&self.ssh);
        }
        let mut v: Vec<SshPath> = Vec::new();
        assert(path_views(v@) =~= Seq::<PathView>::empty());
        legacy_push(&mut v, &self.name, &self.vpn, "-ts", LinkKind::Vpn);
        legacy_push(&mut v, &self.name, &self.lan, "-lan", LinkKind::Lan);
        legacy_push(&mut v, &self.name, &self.thunderbolt, "-tb", LinkKind::Thunderbolt);
        v
    }

    pub fn has_network(&self) -> (b: bool)
        ensures
            b == (spec_ssh_paths(*self).len() > 0),
    {
        let p = self.ssh_paths();
        assert(path_views(p@).len() == p@.len());
        p.len() > 0
    }

    /// IPv4 used to configure this machine's Thunderbolt bridge0, if any: the
    /// address of the first path whose link is Thunderbolt.
    pub fn thunderbolt_ip(&self) -> (r: Option<String>)
        ensures
            opt_view(r) == first_thunderbolt(spec_ssh_paths(*self), 0),
    {
        let paths = self.ssh_paths();
        let ghost ps = path_views(paths@);
        let mut i: usize = 0;
        while i < paths.len()
            invariant
                i <= paths.len(),
                ps == path_views(paths@),
                ps == spec_ssh_paths(*self),
                first_thunderbolt(ps, i as int) == first_thunderbolt(ps, 0),
            decreases paths.len() - i,
        {
            assert(ps[i as int] == paths@[i as int]@);
            if paths[i].link == LinkKind::Thunderbolt {
                return Some(paths[i].ip.clone());
            }
            i = i + 1;
        }
        None
    }

    /// The host's shell, else the one `$SHELL` names.
    pub fn resolved_shell(&self, shell_env: &str) -> (k: ShellKind)
        ensures
            k == (match self.shell {
                Some(s) => s,
                None => spec_detect_shell(shell_env@),
            }),
    {
        match self.shell {
            Some(s) => s,
            None => detect_shell(shell_env),
        }
    }

    /// The host's OS, else the one the binary was built for.
    pub fn resolved_os(&self, target_os: &str) -> (k: OsKind)
        ensures
            k == (match self.os {
                Some(o) => o,
                None => spec_detect_os(target_os@),
            }),
    {
        match self.os {
            Some(o) => o,
            None => detect_os(target_os),
        }
    }

    /// The host's `user`, else the local account name.
    pub fn resolved_user(&self) -> (u: String)
        ensures
            self.user is Some ==> u@ == self.user->0@,
    {
        match &self.user {
            Some(u) => u.clone(),
            None => local_username(),
        }
    }

    /// What writing the local account name into the host file would change,
    /// or `None` when the file already names it.
    pub fn user_write_needed(&self) -> (r: Option<String>)
        ensures
            exists|local: Seq<char>|
                #[trigger] spec_user_write_needed(opt_view(self.user), local) == opt_view(r),
    {
        let local = local_username();
        let r = match &self.user {
            Some(u) => user_write_needed(Some(u.as_str()), local.as_str()),
            None => user_write_needed(None, local.as_str()),
        };
        assert(spec_user_write_needed(opt_view(self.user), local@) == opt_view(r));
        r
    }
}

/// Compares the host file's `user` (trimmed; blank counts as absent) with the local name.
pub fn user_write_needed(toml_user: Option<&str>, local: &str) -> (r: Option<String>)
    ensures
        opt_view(r) == spec_user_write_needed(
            match toml_user {
                Some(u) => Some(u@),
                None => None,
            },
            local@,
        ),
{
    match toml_user {
        Some(u) => {
            let t = trim_str(u);
            if !t.as_str().is_empty() {
                if str_eq(t.as_str(), local) {
                    None
                } else {
                    Some(concat3(t.as_str(), " → ", local))
                }
            } else {
                Some(concat2("write ", local))
            }
        },
        None => Some(concat2("write ", local)),
    }
}

// ---------------------------------------------------------------------------
// Writing the user into a host file
// ---------------------------------------------------------------------------

/// An active `user = ...` assignment (not a comment).
pub open spec fn is_user_line(l: Seq<char>) -> bool {
    let t = trim_start(l);
    starts_with(t, "user"@) && t.contains('=') && !starts_with(t, "#"@)
}

pub open spec fn is_role_line(l: Seq<char>) -> bool {
    starts_with(trim_start(l), "role"@)
}

/// Index of the first user line at or after `i` (or the length).
pub open spec fn first_user_line(ls: Seq<Seq<char>>, i: int) -> int
    decreases ls.len() - i,
{
    if i >= ls.len() || i < 0 {
        ls.len() as int
    } else if is_user_line(ls[i]) {
        i
    } else {
        first_user_line(ls, i + 1)
    }
}

/// Index of the first role line at or after `i` (or the length).
pub open spec fn first_role_line(ls: Seq<Seq<char>>, i: int) -> int
    decreases ls.len() - i,
{
    if i >= ls.len() || i < 0 {
        ls.len() as int
    } else if is_role_line(ls[i]) {
        i
    } else {
        first_role_line(ls, i + 1)
    }
}

pub open spec fn user_assignment(user: Seq<char>) -> Seq<char> {
    "user = \""@ + user + "\""@
}

/// The lines of the file after the edit: the first user line replaced, else the
/// assignment inserted after the first role line, else appended.
pub open spec fn user_edited_lines(ls: Seq<Seq<char>>, user: Seq<char>) -> Seq<Seq<char>> {
    let k = first_user_line(ls, 0);
    if k < ls.len() {
        ls.update(k, user_assignment(user))
    } else {
        let r = first_role_line(ls, 0);
        if r < ls.len() {
            ls.insert(r + 1, user_assignment(user))
        } else {
            ls.push(user_assignment(user))
        }
    }
}

pub open spec fn spec_set_user_line(toml: Seq<char>, user: Seq<char>) -> Seq<char> {
    join(user_edited_lines(lines(toml), user), "\n"@) + "\n"@
}

proof fn lemma_first_user_line(ls: Seq<Seq<char>>, i: int)
    requires
        0 <= i <= ls.len(),
    ensures
        i <= first_user_line(ls, i) <= ls.len(),
        forall|m: int| i <= m < first_user_line(ls, i) ==> !is_user_line(#[trigger] ls[m]),
        first_user_line(ls, i) < ls.len() ==> is_user_line(ls[first_user_line(ls, i)]),
    decreases ls.len() - i,
{
    if i < ls.len() && !is_user_line(ls[i]) {
        lemma_first_user_line(ls, i + 1);
    }
}

proof fn lemma_first_user_line_at(ls: Seq<Seq<char>>, i: int, k: int)
    requires
        0 <= i <= k < ls.len(),
        forall|m: int| i <= m < k ==> !is_user_line(#[trigger] ls[m]),
        is_user_line(ls[k]),
    ensures
        first_user_line(ls, i) == k,
    decreases k - i,
{
    if i < k {
        lemma_first_user_line_at(ls, i + 1, k);
    }
}

proof fn lemma_first_role_line(ls: Seq<Seq<char>>, i: int)
    requires
        0 <= i <= ls.len(),
    ensures
        i <= first_role_line(ls, i) <= ls.len(),
    decreases ls.len() - i,
{
    if i < ls.len() && !is_role_line(ls[i]) {
        lemma_first_role_line(ls, i + 1);
    }
}

/// The assignment rig writes is itself a user line, on one line.
proof fn lemma_user_assignment(user: Seq<char>)
    requires
        !user.contains('\n'),
    ensures
        is_user_line(user_assignment(user)),
        !user_assignment(user).contains('\n'),
        !crate::text::ends_cr(user_assignment(user)),
{
    reveal_strlit("user = \"");
    reveal_strlit("\"");
    reveal_strlit("user");
    reveal_strlit("#");
    let a = user_assignment(user);
    assert(a[0] == 'u');
    assert(crate::text::skip_fwd(a, 0, crate::text::CharClass::Whitespace) == 0);
    assert(trim_start(a) =~= a);
    assert(a.subrange(0, 4) =~= "user"@);
    assert(a[5] == '=');
    assert(a.subrange(0, 1) != "#"@) by {
        assert(a.subrange(0, 1)[0] == 'u');
    }
    assert(a.last() == '"');
    if a.contains('\n') {
        let q = choose|q: int| 0 <= q < a.len() && a[q] == '\n';
        if q >= 7 && q < 7 + user.len() {
            assert(user[q - 7] == '\n');
        }
    }
}

/// Writing the same user twice gives what writing it once gave: the
/// assignment written the first time is the user line found the second time.
/// This holds unless a line kept from the file ends in a carriage return
/// (which the second reading would drop) or the user holds a line feed.
pub proof fn law_set_user_line_idempotent(toml: Seq<char>, user: Seq<char>)
    requires
        !user.contains('\n'),
        forall|k: int|
            0 <= k < user_edited_lines(lines(toml), user).len() ==> !crate::text::ends_cr(
                #[trigger] user_edited_lines(lines(toml), user)[k],
            ),
    ensures
        spec_set_user_line(spec_set_user_line(toml, user), user) == spec_set_user_line(toml, user),
{
    let ls = lines(toml);
    let a = user_assignment(user);
    let e = user_edited_lines(ls, user);
    crate::text::lemma_lines_no_nl(toml);
    lemma_user_assignment(user);
    lemma_first_user_line(ls, 0);
    lemma_first_role_line(ls, 0);
    let k = first_user_line(ls, 0);
    if k < ls.len() {
        assert(e == ls.update(k, a));
        assert forall|m: int| 0 <= m < k implies !is_user_line(#[trigger] e[m]) by {
            assert(e[m] == ls[m]);
        }
        lemma_first_user_line_at(e, 0, k);
        assert(user_edited_lines(e, user) =~= e);
    } else {
        let r = first_role_line(ls, 0);
        let at: int = if r < ls.len() { r + 1 } else { ls.len() as int };
        assert(e =~= ls.insert(at, a));
        assert forall|m: int| 0 <= m < at implies !is_user_line(#[trigger] e[m]) by {
            assert(e[m] == ls[m]);
        }
        lemma_first_user_line_at(e, 0, at);
        assert(user_edited_lines(e, user) =~= e);
    }
    assert forall|m: int| 0 <= m < e.len() implies !(#[trigger] e[m]).contains('\n') && !crate::text::ends_cr(e[m]) by {
        if e[m] != a {
            if k < ls.len() {
                assert(e[m] == ls[m]);
            } else {
                let r = first_role_line(ls, 0);
                let at: int = if r < ls.len() { r + 1 } else { ls.len() as int };
                if m < at {
                    assert(e[m] == ls[m]);
                } else {
                    assert(e[m] == ls[m - 1]);
                }
            }
        }
    }
    crate::text::lemma_lines_of_joined(e);
}

fn is_user_line_exec(l: &Vec<char>) -> (b: bool)
    ensures
        b == is_user_line(l@),
{
    let t = trim_start_chars(l.as_slice());
    let user = chars_of("user");
    let hash = chars_of("#");
    starts_with_chars(t.as_slice(), user.as_slice()) && has_char(t.as_slice(), '=')
        && !starts_with_chars(t.as_slice(), hash.as_slice())
}

fn is_role_line_exec(l: &Vec<char>) -> (b: bool)
    ensures
        b == is_role_line(l@),
{
    let t = trim_start_chars(l.as_slice());
    let role = chars_of("role");
    starts_with_chars(t.as_slice(), role.as_slice())
}

/// Strings of the given character vectors.
pub fn strings_of(v: &Vec<Vec<char>>) -> (out: Vec<String>)
    ensures
        views(out@) == v@.map_values(|l: Vec<char>| l@),
{
    let mut out: Vec<String> = Vec::new();
    let mut i: usize = 0;
    while i < v.len()
        invariant
            i <= v.len(),
            views(out@) == v@.subrange(0, i as int).map_values(|l: Vec<char>| l@),
        decreases v.len() - i,
    {
        let ghost before = views(out@);
        out.push(string_of(v[i].as_slice()));
        assert(views(out@) =~= before.push(v@[i as int]@));
        assert(v@.subrange(0, i + 1).map_values(|l: Vec<char>| l@) =~= v@.subrange(
            0,
            i as int,
        ).map_values(|l: Vec<char>| l@).push(v@[i as int]@));
        i = i + 1;
    }
    assert(v@.subrange(0, v.len() as int) =~= v@);
    out
}

/// The lines of `s` as strings (`str::lines`).
pub fn lines_strings(s: &str) -> (out: Vec<String>)
    ensures
        views(out@) == lines(s@),
{
    let v = chars_of(s);
    let ls = lines_of(v.as_slice());
    strings_of(&ls)
}

/// Set or insert `user = "..."` without dropping comments.
pub fn set_user_line(toml: &str, user: &str) -> (out: String)
    ensures
        out@ == spec_set_user_line(toml@, user@),
{
    let assign = concat3("user = \"", user, "\"");
    let v = chars_of(toml);
    let ls = lines_of(v.as_slice());
    let ghost lv = ls@.map_values(|l: Vec<char>| l@);
    let mut out: Vec<String> = strings_of(&ls);
    let mut k: usize = 0;
    while k < ls.len() && !is_user_line_exec(&ls[k])
        invariant
            k <= ls.len(),
            lv == ls@.map_values(|l: Vec<char>| l@),
            first_user_line(lv, k as int) == first_user_line(lv, 0),
        decreases ls.len() - k,
    {
        k = k + 1;
    }
    if k < ls.len() {
        let ghost before = views(out@);
        out.set(k, assign);
        assert(views(out@) =~= before.update(k as int, user_assignment(user@)));
    } else {
        let mut r: usize = 0;
        while r < ls.len() && !is_role_line_exec(&ls[r])
            invariant
                r <= ls.len(),
                lv == ls@.map_values(|l: Vec<char>| l@),
                first_role_line(lv, r as int) == first_role_line(lv, 0),
            decreases ls.len() - r,
        {
            r = r + 1;
        }
        let ghost before = views(out@);
        if r < ls.len() {
            out.insert(r + 1, assign);
            assert(views(out@) =~= before.insert(r + 1, user_assignment(user@)));
        } else {
            out.push(assign);
            assert(views(out@) =~= before.push(user_assignment(user@)));
        }
    }
    let mut text = join_strings(out.as_slice(), "\n");
    push_str(&mut text, "\n");
    text
}

} // verus!
