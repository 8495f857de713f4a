//! The apply plan: which steps run on this host, and with what.
use vstd::prelude::*;
use crate::schema::role::os_name;
use crate::schema::{Host, OsKind, Role, RoleFeatures, ShellKind};
use crate::schema::host::{first_thunderbolt, opt_view, spec_detect_os, spec_detect_shell, spec_ssh_paths};
use crate::text::{concat2, decimal, decimal_string, join, join_strings, owned, push_str, views};

verus! {

/// What the plan says of one step.
#[derive(Debug, Clone)]
pub struct ApplyStep {
    pub id: String,
    pub detail: String,
    pub skip: bool,
}

/// What `rig apply` will do on one host.
#[derive(Debug, Clone)]
pub struct ApplyPlan {
    pub host: String,
    pub role: String,
    pub os: String,
    pub shell: String,
    pub user: String,
    pub package_sets: Vec<String>,
    pub steps: Vec<ApplyStep>,
}

/// A step as values: id, detail, skip.
pub type StepView = (Seq<char>, Seq<char>, bool);

impl View for ApplyStep {
    type V = StepView;

    open spec fn view(&self) -> StepView {
        (self.id@, self.detail@, self.skip)
    }
}

pub open spec fn step_views(s: Seq<ApplyStep>) -> Seq<StepView> {
    s.map_values(|st: ApplyStep| st@)
}

// ---------------------------------------------------------------------------
// Model
// ---------------------------------------------------------------------------

/// `base` with each of `adds` appended unless already present.
pub open spec fn add_sets(base: Seq<Seq<char>>, adds: Seq<Seq<char>>) -> Seq<Seq<char>>
    decreases adds.len(),
{
    if adds.len() == 0 {
        base
    } else {
        let b = add_sets(base, adds.drop_last());
        if b.contains(adds.last()) {
            b
        } else {
            b.push(adds.last())
        }
    }
}

/// `s` without the elements that `remove` names (`Vec::retain`).
pub open spec fn drop_removed(s: Seq<Seq<char>>, remove: Seq<Seq<char>>) -> Seq<Seq<char>>
    decreases s.len(),
{
    if s.len() == 0 {
        s
    } else {
        let r = drop_removed(s.drop_last(), remove);
        if remove.contains(s.last()) {
            r
        } else {
            r.push(s.last())
        }
    }
}

/// `role.packages + host.packages.add - host.packages.remove`.
pub open spec fn spec_package_sets(host: Host, role: Role) -> Seq<Seq<char>> {
    drop_removed(add_sets(views(role.packages@), views(host.packages.add@)), views(host.packages.remove@))
}

/// The host's shell, else the role's default, else the one `$SHELL` names.
pub open spec fn spec_plan_shell(host: Host, role: Role, shell_env: Seq<char>) -> ShellKind {
    match host.shell {
        Some(s) => s,
        None => match role.default_shell {
            Some(s) => s,
            None => spec_detect_shell(shell_env),
        },
    }
}

pub open spec fn spec_plan_os(host: Host, target_os: Seq<char>) -> OsKind {
    match host.os {
        Some(o) => o,
        None => spec_detect_os(target_os),
    }
}

pub open spec fn shell_name(s: ShellKind) -> Seq<char> {
    match s {
        ShellKind::Zsh => "zsh"@,
        ShellKind::Bash => "bash"@,
    }
}

pub open spec fn spec_feature_step(id: Seq<char>, enabled: bool, on: Seq<char>, off: Seq<char>) -> StepView {
    (id, if enabled { on } else { off }, !enabled)
}

/// The steps before the feature steps.
pub open spec fn base_steps(host: Host, shell: ShellKind, os: OsKind, sets: Seq<Seq<char>>) -> Seq<StepView> {
    let validate = ("validate"@, host.role@ + "  schema "@ + decimal(host.schema_version as nat), false);
    let omz = if shell == ShellKind::Zsh {
        seq![("omz"@, "ensure Oh My Zsh + powerlevel10k + plugins"@, false)]
    } else {
        seq![]
    };
    let link_shell = (
        "link-shell"@,
        "templates/shell/{common,"@ + shell_name(shell) + "} -> ~/."@ + shell_name(shell) + "rc"@
            + if shell == ShellKind::Zsh {
            " + OMZ/p10k product rc"@
        } else {
            ""@
        },
        false,
    );
    let tmux = ("link-tmux"@, "templates/tmux/tmux.conf -> ~/.tmux.conf (overlay preferred)"@, false);
    let packages = (
        "packages"@,
        decimal(sets.len()) + " sets via "@ + (if os == OsKind::Macos {
            "brew"@
        } else {
            "apt"@
        }) + ": "@ + join(sets, ", "@),
        sets.len() == 0,
    );
    let ssh = ("ssh-config"@, "generate ssh config from hosts/*.toml"@, false);
    seq![validate] + omz + seq![link_shell, tmux, packages, ssh]
}

/// The feature steps, in the order gui, cursor, remote-login, screen-sharing,
/// tailscale, thunderbolt, stay-awake.
pub open spec fn feature_steps(f: RoleFeatures, os: OsKind, tb_ip: Option<Seq<char>>) -> Seq<StepView> {
    seq![
        spec_feature_step("gui"@, f.gui, "install / enable GUI apps"@, "off in role"@),
        spec_feature_step("cursor"@, f.cursor, "link Cursor user settings"@, "off in role"@),
        spec_feature_step("remote-login"@, f.remote_login, "enable remote login / sshd"@, "off in role"@),
        spec_feature_step(
            "screen-sharing"@,
            f.screen_sharing && os == OsKind::Macos,
            "listen :5900 (Screen Sharing.app: toggle once in System Settings)"@,
            if os == OsKind::Macos { "off in role"@ } else { "macOS only"@ },
        ),
        spec_feature_step("tailscale"@, f.tailscale, "configure Tailscale (CLI or Tailscale.app)"@, "off in role"@),
        spec_feature_step(
            "thunderbolt"@,
            f.thunderbolt && tb_ip is Some,
            match tb_ip {
                Some(ip) => "configure thunderbolt IP "@ + ip,
                None => "no thunderbolt [[ssh]] link on host"@,
            },
            if f.thunderbolt { "no thunderbolt [[ssh]] link on host"@ } else { "off in role"@ },
        ),
        spec_feature_step(
            "stay-awake"@,
            f.stay_awake,
            if os == OsKind::Macos {
                "pmset -a: sleep/display/disk/powernap off"@
            } else {
                "logind: ignore idle and lid (systemd)"@
            },
            "off in role"@,
        ),
    ]
}

/// The features of the role with the host's overrides.
pub open spec fn merged_features(host: Host, role: Role) -> RoleFeatures {
    RoleFeatures {
        gui: crate::schema::role::overlay(host.features.gui, role.features.gui),
        cursor: crate::schema::role::overlay(host.features.cursor, role.features.cursor),
        remote_login: crate::schema::role::overlay(host.features.remote_login, role.features.remote_login),
        screen_sharing: crate::schema::role::overlay(host.features.screen_sharing, role.features.screen_sharing),
        tailscale: crate::schema::role::overlay(host.features.tailscale, role.features.tailscale),
        thunderbolt: crate::schema::role::overlay(host.features.thunderbolt, role.features.thunderbolt),
        stay_awake: crate::schema::role::overlay(host.features.stay_awake, role.features.stay_awake),
    }
}

/// Every step of the plan, in order.
pub open spec fn spec_plan_steps(host: Host, role: Role, shell: ShellKind, os: OsKind) -> Seq<StepView> {
    base_steps(host, shell, os, spec_package_sets(host, role)) + feature_steps(
        merged_features(host, role),
        os,
        first_thunderbolt(spec_ssh_paths(host), 0),
    )
}

/// The plan for `host` with `role`, given `$SHELL`, the target OS name and the
/// resolved user.
pub open spec fn plan_matches(
    p: ApplyPlan,
    host: Host,
    role: Role,
    shell_env: Seq<char>,
    target_os: Seq<char>,
    user: Seq<char>,
) -> bool {
    let shell = spec_plan_shell(host, role, shell_env);
    let os = spec_plan_os(host, target_os);
    &&& p.host@ == host.name@
    &&& p.role@ == host.role@
    &&& p.os@ == os_name(os)
    &&& p.shell@ == shell_name(shell)
    &&& p.user@ == user
    &&& views(p.package_sets@) == spec_package_sets(host, role)
    &&& step_views(p.steps@) == spec_plan_steps(host, role, shell, os)
}

// ---------------------------------------------------------------------------
// Laws
// ---------------------------------------------------------------------------

/// The host file's shell wins: a plan for a host that names its shell uses
/// that shell (its name in the plan, and the shell of the run), whatever the
/// role's default; the role's default decides only for a host that names none.
pub proof fn law_host_shell_wins(
    p: ApplyPlan,
    host: Host,
    role: Role,
    shell_env: Seq<char>,
    target_os: Seq<char>,
    user: Seq<char>,
)
    requires
        plan_matches(p, host, role, shell_env, target_os, user),
    ensures
        host.shell == Some(ShellKind::Bash) ==> spec_plan_shell(host, role, shell_env) == ShellKind::Bash
            && p.shell@ == "bash"@ && step_views(p.steps@)[1].0 == "link-shell"@,
        host.shell == Some(ShellKind::Zsh) ==> spec_plan_shell(host, role, shell_env) == ShellKind::Zsh
            && p.shell@ == "zsh"@ && step_views(p.steps@)[1].0 == "omz"@,
        host.shell is None && role.default_shell == Some(ShellKind::Bash) ==> spec_plan_shell(host, role, shell_env)
            == ShellKind::Bash && p.shell@ == "bash"@,
        host.shell is None && role.default_shell == Some(ShellKind::Zsh) ==> spec_plan_shell(host, role, shell_env)
            == ShellKind::Zsh && p.shell@ == "zsh"@,
{
    let shell = spec_plan_shell(host, role, shell_env);
    let os = spec_plan_os(host, target_os);
    let b = base_steps(host, shell, os, spec_package_sets(host, role));
    let all = spec_plan_steps(host, role, shell, os);
    assert(all[1] == b[1]);
}

pub proof fn lemma_add_sets(base: Seq<Seq<char>>, adds: Seq<Seq<char>>)
    ensures
        forall|x: Seq<char>| #[trigger] add_sets(base, adds).contains(x) <==> base.contains(x) || adds.contains(x),
        base.no_duplicates() ==> add_sets(base, adds).no_duplicates(),
    decreases adds.len(),
{
    if adds.len() > 0 {
        let p = adds.drop_last();
        lemma_add_sets(base, p);
        let b = add_sets(base, p);
        assert forall|x: Seq<char>| #[trigger] add_sets(base, adds).contains(x) <==> base.contains(x) || adds.contains(x) by {
            if adds.contains(x) {
                let k = choose|k: int| 0 <= k < adds.len() && adds[k] == x;
                if k < adds.len() - 1 {
                    assert(p[k] == x);
                    assert(p.contains(x));
                }
            }
            if p.contains(x) {
                let k = choose|k: int| 0 <= k < p.len() && p[k] == x;
                assert(adds[k] == x);
            }
            if !b.contains(adds.last()) {
                let e = b.push(adds.last());
                if e.contains(x) {
                    let j = choose|j: int| 0 <= j < e.len() && e[j] == x;
                    if j < b.len() {
                        assert(b[j] == x);
                        assert(b.contains(x));
                    } else {
                        assert(adds[adds.len() - 1] == x);
                    }
                }
                if b.contains(x) {
                    let j = choose|j: int| 0 <= j < b.len() && b[j] == x;
                    assert(e[j] == x);
                }
                if x == adds.last() {
                    assert(e[b.len() as int] == x);
                }
            }
        }
    }
}

pub proof fn lemma_drop_removed(s: Seq<Seq<char>>, remove: Seq<Seq<char>>)
    ensures
        forall|x: Seq<char>| #[trigger] drop_removed(s, remove).contains(x) <==> s.contains(x) && !remove.contains(x),
        s.no_duplicates() ==> drop_removed(s, remove).no_duplicates(),
    decreases s.len(),
{
    if s.len() > 0 {
        let p = s.drop_last();
        lemma_drop_removed(p, remove);
        let r = drop_removed(p, remove);
        assert forall|x: Seq<char>| #[trigger] drop_removed(s, remove).contains(x) <==> s.contains(x) && !remove.contains(x) by {
            if s.contains(x) {
                let k = choose|k: int| 0 <= k < s.len() && s[k] == x;
                if k < s.len() - 1 {
                    assert(p[k] == x);
                    assert(p.contains(x));
                }
            }
            if p.contains(x) {
                let k = choose|k: int| 0 <= k < p.len() && p[k] == x;
                assert(s[k] == x);
            }
            if !remove.contains(s.last()) {
                let e = r.push(s.last());
                if e.contains(x) {
                    let j = choose|j: int| 0 <= j < e.len() && e[j] == x;
                    if j < r.len() {
                        assert(r[j] == x);
                        assert(r.contains(x));
                    } else {
                        assert(s[s.len() - 1] == x);
                    }
                }
                if r.contains(x) {
                    let j = choose|j: int| 0 <= j < r.len() && r[j] == x;
                    assert(e[j] == x);
                }
                if x == s.last() {
                    assert(e[r.len() as int] == x);
                }
            }
        }
        if s.no_duplicates() {
            assert(p.no_duplicates());
            if !remove.contains(s.last()) {
                assert(!p.contains(s.last()));
                assert(!r.contains(s.last()));
            }
        }
    }
}

/// Package resolution: a set is applied exactly when the role or the host's
/// `add` names it and the host's `remove` does not; no set is applied twice
/// when the role lists none twice.
pub proof fn law_package_sets_resolution(host: Host, role: Role)
    ensures
        forall|x: Seq<char>| #[trigger] spec_package_sets(host, role).contains(x) <==> (
            views(role.packages@).contains(x) || views(host.packages.add@).contains(x))
            && !views(host.packages.remove@).contains(x),
        views(role.packages@).no_duplicates() ==> spec_package_sets(host, role).no_duplicates(),
{
    let base = views(role.packages@);
    let adds = views(host.packages.add@);
    lemma_add_sets(base, adds);
    lemma_drop_removed(add_sets(base, adds), views(host.packages.remove@));
}

// ---------------------------------------------------------------------------
// Building the plan
// ---------------------------------------------------------------------------

fn contains_str(list: &Vec<String>, x: &String) -> (b: bool)
    ensures
        b == views(list@).contains(x@),
{
    let mut i: usize = 0;
    while i < list.len()
        invariant
            i <= list.len(),
            forall|k: int| 0 <= k < i ==> views(list@)[k] != x@,
        decreases list.len() - i,
    {
        if list[i] == *x {
            assert(views(list@)[i as int] == x@);
            return true;
        }
        i = i + 1;
    }
    false
}

pub(crate) fn copy_strings(v: &Vec<String>) -> (out: Vec<String>)
    ensures
        views(out@) == views(v@),
{
    let mut out: Vec<String> = Vec::new();
    let mut i: usize = 0;
    while i < v.len()
        invariant
            i <= v.len(),
            views(out@) == views(v@.subrange(0, i as int)),
        decreases v.len() - i,
    {
        let ghost before = views(out@);
        out.push(v[i].clone());
        assert(views(out@) =~= before.push(v@[i as int]@));
        assert(views(v@.subrange(0, i + 1)) =~= views(v@.subrange(0, i as int)).push(v@[i as int]@));
        i = i + 1;
    }
    assert(v@.subrange(0, v.len() as int) =~= v@);
    out
}

/// The package sets of the plan: the role's, the host's additions, less the host's removals.
pub fn resolve_package_sets(host: &Host, role: &Role) -> (out: Vec<String>)
    ensures
        views(out@) == spec_package_sets(*host, *role),
{
    let mut sets = copy_strings(&role.packages);
    let adds = &host.packages.add;
    let mut i: usize = 0;
    while i < adds.len()
        invariant
            i <= adds.len(),
            adds == &host.packages.add,
            views(sets@) == add_sets(views(role.packages@), views(adds@.subrange(0, i as int))),
        decreases adds.len() - i,
    {
        let ghost pre = views(adds@.subrange(0, i as int));
        assert(views(adds@.subrange(0, i + 1)).drop_last() =~= pre);
        assert(views(adds@.subrange(0, i + 1)).last() == adds@[i as int]@);
        if !contains_str(&sets, &adds[i]) {
            let ghost before = views(sets@);
            sets.push(adds[i].clone());
            assert(views(sets@) =~= before.push(adds@[i as int]@));
        }
        i = i + 1;
    }
    assert(adds@.subrange(0, adds.len() as int) =~= adds@);
    let ghost all = views(sets@);
    let mut out: Vec<String> = Vec::new();
    let mut j: usize = 0;
    while j < sets.len()
        invariant
            j <= sets.len(),
            all == views(sets@),
            views(out@) == drop_removed(all.subrange(0, j as int), views(host.packages.remove@)),
        decreases sets.len() - j,
    {
        let ghost pre = all.subrange(0, j as int);
        assert(all.subrange(0, j + 1).drop_last() =~= pre);
        assert(all.subrange(0, j + 1).last() == sets@[j as int]@);
        if !contains_str(&host.packages.remove, &sets[j]) {
            let ghost before = views(out@);
            out.push(sets[j].clone());
            assert(views(out@) =~= before.push(sets@[j as int]@));
        }
        j = j + 1;
    }
    assert(all.subrange(0, sets.len() as int) =~= all);
    out
}

fn step(id: &str, detail: String, skip: bool) -> (s: ApplyStep)
    ensures
        s@ == (id@, detail@, skip),
{
    ApplyStep { id: owned(id), detail, skip }
}

/// A feature step: the `on` detail and run when enabled, else the `off` detail and skipped.
pub fn feature_step(id: &str, enabled: bool, on: String, off: String) -> (s: ApplyStep)
    ensures
        s@ == spec_feature_step(id@, enabled, on@, off@),
{
    ApplyStep { id: owned(id), detail: if enabled { on } else { off }, skip: !enabled }
}

/// The shell that apply configures: the host's, else the role's default, else `$SHELL`'s.
pub fn plan_shell(host: &Host, role: &Role, shell_env: &str) -> (s: ShellKind)
    ensures
        s == spec_plan_shell(*host, *role, shell_env@),
{
    match host.shell {
        Some(s) => s,
        None => match role.default_shell {
            Some(s) => s,
            None => crate::schema::detect_shell(shell_env),
        },
    }
}

/// The steps before the feature steps.
fn build_base_steps(host: &Host, shell: ShellKind, os: OsKind, package_sets: &Vec<String>) -> (steps: Vec<ApplyStep>)
    ensures
        step_views(steps@) == base_steps(*host, shell, os, views(package_sets@)),
{
    let zsh = shell == ShellKind::Zsh;
    let mut steps: Vec<ApplyStep> = Vec::new();
    let mut d = concat2(host.role.as_str(), "  schema ");
    let n = decimal_string(host.schema_version as u64);
    push_str(&mut d, n.as_str());
    steps.push(step("validate", d, false));
    if zsh {
        steps.push(step("omz", owned("ensure Oh My Zsh + powerlevel10k + plugins"), false));
    }
    let mut d = concat2("templates/shell/{common,", shell.as_str());
    push_str(&mut d, "} -> ~/.");
    push_str(&mut d, shell.as_str());
    push_str(&mut d, "rc");
    push_str(&mut d, if zsh { " + OMZ/p10k product rc" } else { "" });
    steps.push(step("link-shell", d, false));
    steps.push(step("link-tmux", owned("templates/tmux/tmux.conf -> ~/.tmux.conf (overlay preferred)"), false));
    let n = decimal_string(package_sets.len() as u64);
    let mut d = concat2(n.as_str(), " sets via ");
    push_str(&mut d, if os == OsKind::Macos { "brew" } else { "apt" });
    push_str(&mut d, ": ");
    let joined = join_strings(package_sets.as_slice(), ", ");
    push_str(&mut d, joined.as_str());
    proof {
        assert(views(package_sets@).len() == package_sets@.len());
    }
    steps.push(step("packages", d, package_sets.len() == 0));
    steps.push(step("ssh-config", owned("generate ssh config from hosts/*.toml"), false));
    assert(step_views(steps@) =~= base_steps(*host, shell, os, views(package_sets@)));
    steps
}

/// The feature steps for the merged features `f`.
fn build_feature_steps(f: RoleFeatures, os: OsKind, tb_ip: &Option<String>) -> (steps: Vec<ApplyStep>)
    ensures
        step_views(steps@) == feature_steps(f, os, opt_view(*tb_ip)),
{
    let mut steps: Vec<ApplyStep> = Vec::new();
    steps.push(feature_step("gui", f.gui, owned("install / enable GUI apps"), owned("off in role")));
    steps.push(feature_step("cursor", f.cursor, owned("link Cursor user settings"), owned("off in role")));
    steps.push(feature_step("remote-login", f.remote_login, owned("enable remote login / sshd"), owned("off in role")));
    steps.push(feature_step(
        "screen-sharing",
        f.screen_sharing && os == OsKind::Macos,
        owned("listen :5900 (Screen Sharing.app: toggle once in System Settings)"),
        owned(if os == OsKind::Macos { "off in role" } else { "macOS only" }),
    ));
    steps.push(feature_step("tailscale", f.tailscale, owned("configure Tailscale (CLI or Tailscale.app)"), owned("off in role")));
    let tb_on = f.thunderbolt && tb_ip.is_some();
    let on = match tb_ip {
        Some(ip) => concat2("configure thunderbolt IP ", ip.as_str()),
        None => owned("no thunderbolt [[ssh]] link on host"),
    };
    let off = owned(if f.thunderbolt { "no thunderbolt [[ssh]] link on host" } else { "off in role" });
    steps.push(feature_step("thunderbolt", tb_on, on, off));
    steps.push(feature_step(
        "stay-awake",
        f.stay_awake,
        owned(if os == OsKind::Macos {
            "pmset -a: sleep/display/disk/powernap off"
        } else {
            "logind: ignore idle and lid (systemd)"
        }),
        owned("off in role"),
    ));
    assert(step_views(steps@) =~= feature_steps(f, os, opt_view(*tb_ip)));
    steps
}

/// The plan for `host` with `role`, for the given resolved user.
pub fn build_plan_for_user(host: &Host, role: &Role, shell_env: &str, target_os: &str, user: String) -> (p: ApplyPlan)
    ensures
        plan_matches(p, *host, *role, shell_env@, target_os@, user@),
{
    let shell = plan_shell(host, role, shell_env);
    let os = host.resolved_os(target_os);
    let package_sets = resolve_package_sets(host, role);
    let mut steps = build_base_steps(host, shell, os, &package_sets);
    let f = role.features.with_host(&host.features);
    let tb_ip = host.thunderbolt_ip();
    let mut features = build_feature_steps(f, os, &tb_ip);
    let ghost a = step_views(steps@);
    let ghost b = step_views(features@);
    steps.append(&mut features);
    proof {
        assert(f == merged_features(*host, *role));
        assert(step_views(steps@) =~= a + b);
    }
    ApplyPlan {
        host: host.name.clone(),
        role: host.role.clone(),
        os: owned(os.as_str()),
        shell: owned(shell.as_str()),
        user,
        package_sets,
        steps,
    }
}

/// The plan for `host` with `role`: package sets, the base steps and the
/// feature steps, with the host's user or else the local account name.
pub fn build_plan(host: &Host, role: &Role, shell_env: &str, target_os: &str) -> (p: ApplyPlan)
    ensures
        exists|user: Seq<char>| #[trigger] plan_matches(p, *host, *role, shell_env@, target_os@, user),
        host.user is Some ==> plan_matches(p, *host, *role, shell_env@, target_os@, host.user->0@),
{
    let user = host.resolved_user();
    let p = build_plan_for_user(host, role, shell_env, target_os, user);
    assert(plan_matches(p, *host, *role, shell_env@, target_os@, p.user@));
    p
}

/// The rc file of a shell.
pub fn shell_rc_name(shell: ShellKind) -> (s: &'static str)
    ensures
        s@ == (match shell {
            ShellKind::Zsh => ".zshrc"@,
            ShellKind::Bash => ".bashrc"@,
        }),
{
    match shell {
        ShellKind::Zsh => ".zshrc",
        ShellKind::Bash => ".bashrc",
    }
}

} // verus!
