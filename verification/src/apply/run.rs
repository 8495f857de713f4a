//! Running an apply: the order of the steps, what the state manifest records
//! of each, and when the run stops. app/ performs each action and hands back
//! what came of it.
use vstd::prelude::*;
use crate::apply::features::StepReport;
use crate::apply::link::LinkReport;
use crate::apply::packages::PackageReport;
use crate::apply::plan::{build_plan, copy_strings, plan_matches, plan_shell, step_views, ApplyPlan, StepView};
use crate::apply::state::{entry_views, RigState};
use crate::apply::tmux::TmuxReport;
use crate::error::{msg_text, RigError};
use crate::schema::{Host, OsKind, Role, ShellKind};
use crate::schema::host::{first_thunderbolt, opt_view, spec_detect_os, spec_ssh_paths};
use crate::apply::plan::{spec_plan_os, spec_plan_shell};
use crate::text::{concat2, concat3, decimal, decimal_string, join, join_strings, owned, push_str, str_eq, views};

verus! {

// ---------------------------------------------------------------------------
// Feature steps
// ---------------------------------------------------------------------------

/// The plan steps that run a system feature.
#[derive(Debug, Clone, Copy, PartialEq, Eq, Structural)]
pub enum FeatureKind {
    RemoteLogin,
    ScreenSharing,
    Thunderbolt,
    Tailscale,
    StayAwake,
    Cursor,
    Gui,
}

/// The feature a plan step id names, if any.
pub open spec fn feature_kind(id: Seq<char>) -> Option<FeatureKind> {
    if id == "remote-login"@ {
        Some(FeatureKind::RemoteLogin)
    } else if id == "screen-sharing"@ {
        Some(FeatureKind::ScreenSharing)
    } else if id == "thunderbolt"@ {
        Some(FeatureKind::Thunderbolt)
    } else if id == "tailscale"@ {
        Some(FeatureKind::Tailscale)
    } else if id == "stay-awake"@ {
        Some(FeatureKind::StayAwake)
    } else if id == "cursor"@ {
        Some(FeatureKind::Cursor)
    } else if id == "gui"@ {
        Some(FeatureKind::Gui)
    } else {
        None
    }
}

pub fn feature_kind_of(id: &str) -> (r: Option<FeatureKind>)
    ensures
        r == feature_kind(id@),
{
    if str_eq(id, "remote-login") {
        Some(FeatureKind::RemoteLogin)
    } else if str_eq(id, "screen-sharing") {
        Some(FeatureKind::ScreenSharing)
    } else if str_eq(id, "thunderbolt") {
        Some(FeatureKind::Thunderbolt)
    } else if str_eq(id, "tailscale") {
        Some(FeatureKind::Tailscale)
    } else if str_eq(id, "stay-awake") {
        Some(FeatureKind::StayAwake)
    } else if str_eq(id, "cursor") {
        Some(FeatureKind::Cursor)
    } else if str_eq(id, "gui") {
        Some(FeatureKind::Gui)
    } else {
        None
    }
}

/// A feature step the run will carry out.
pub open spec fn pending_feature(s: StepView) -> bool {
    feature_kind(s.0) is Some && !s.2
}

/// A feature step the plan turned off.
pub open spec fn skipped_feature(s: StepView) -> bool {
    feature_kind(s.0) is Some && s.2
}

/// The first feature step at or after `i` that runs, or the number of steps.
pub open spec fn next_feature(steps: Seq<StepView>, i: int) -> int
    decreases steps.len() - i,
{
    if i < 0 || i >= steps.len() {
        steps.len() as int
    } else if pending_feature(steps[i]) {
        i
    } else {
        next_feature(steps, i + 1)
    }
}

/// The turned-off feature steps from `i` up to `j`.
pub open spec fn skipped_between(steps: Seq<StepView>, i: int, j: int) -> Seq<StepView>
    decreases j - i,
{
    if i >= j || i < 0 || i >= steps.len() {
        seq![]
    } else if skipped_feature(steps[i]) {
        seq![steps[i]] + skipped_between(steps, i + 1, j)
    } else {
        skipped_between(steps, i + 1, j)
    }
}

pub open spec fn ids_of(s: Seq<StepView>) -> Seq<Seq<char>> {
    s.map_values(|v: StepView| v.0)
}

// ---------------------------------------------------------------------------
// Shown lines
// ---------------------------------------------------------------------------

/// One line of the run as the terminal shows it: mark, step id, detail. A
/// line with an empty mark and id is an item under the step above it, its
/// detail the item's text.
pub struct ShownStep {
    pub mark: &'static str,
    pub id: String,
    pub detail: String,
}

pub type ShownView = (Seq<char>, Seq<char>, Seq<char>);

pub open spec fn shown_views(v: Seq<ShownStep>) -> Seq<ShownView> {
    v.map_values(|s: ShownStep| (s.mark@, s.id@, s.detail@))
}

pub open spec fn skip_lines(s: Seq<StepView>) -> Seq<ShownView> {
    s.map_values(|v: StepView| ("skip"@, v.0, v.1))
}

fn shown(mark: &'static str, id: &str, detail: &str) -> (s: ShownStep)
    ensures
        s.mark == mark,
        s.id@ == id@,
        s.detail@ == detail@,
{
    ShownStep { mark, id: owned(id), detail: owned(detail) }
}

// ---------------------------------------------------------------------------
// The run
// ---------------------------------------------------------------------------

/// Which outcome the run waits for.
pub enum ApplyPhase {
    Omz,
    LinkShell,
    LinkTmux,
    Packages,
    SshConfig,
    /// The feature step at this index of the plan.
    Feature(usize),
    /// Nothing: the run finished or failed.
    Over,
}

/// An apply in progress.
pub struct ApplyRun {
    pub plan: ApplyPlan,
    pub shell: ShellKind,
    pub os: OsKind,
    pub skip_packages: bool,
    pub thunderbolt_ip: Option<String>,
    pub state: RigState,
    pub phase: ApplyPhase,
}

/// What app/ does next.
pub enum ApplyAction {
    /// Install Oh My Zsh, powerlevel10k and the plugins.
    EnsureOmz,
    /// Copy the shell templates and write rig's block into the rc files.
    LinkShell { shell: ShellKind, product_rc: bool },
    /// Link `~/.tmux.conf` and install the status scripts.
    LinkTmux,
    /// Install the plan's package sets.
    InstallPackages,
    /// Write the SSH config from the host files.
    WriteSshConfig,
    /// Set the Thunderbolt bridge to this address.
    ConfigureThunderbolt(String),
    /// Run this feature step (never `Thunderbolt`).
    RunFeature(FeatureKind),
    /// Save the state manifest; the apply succeeded.
    Finish,
    /// Stop with this message, saving the state manifest first when asked.
    Fail { message: String, save_state: bool },
}

/// What came of the last action.
pub enum ApplyEvent {
    Omz(StepReport),
    ShellLinked(LinkReport),
    TmuxLinked(TmuxReport),
    Packages(PackageReport),
    SshConfig(String),
    /// A feature step's report and the files it wrote.
    Feature(StepReport, Vec<String>),
}

/// The event answers the action of the phase.
pub open spec fn answers(phase: ApplyPhase, event: ApplyEvent) -> bool {
    match phase {
        ApplyPhase::Omz => event is Omz,
        ApplyPhase::LinkShell => event is ShellLinked,
        ApplyPhase::LinkTmux => event is TmuxLinked,
        ApplyPhase::Packages => event is Packages,
        ApplyPhase::SshConfig => event is SshConfig,
        ApplyPhase::Feature(_) => event is Feature,
        ApplyPhase::Over => false,
    }
}

pub open spec fn run_wf(run: ApplyRun) -> bool {
    &&& run.state.well_formed()
    &&& views(run.state.managed_files@).no_duplicates()
    &&& (run.phase matches ApplyPhase::Feature(i) ==> i < run.plan.steps@.len() && pending_feature(
        run.plan.steps@[i as int]@,
    ))
}

/// The action that continues the run from feature index `i`, and the phase it sets.
pub open spec fn feature_action(run: ApplyRun, i: int, a: ApplyAction) -> bool {
    let steps = step_views(run.plan.steps@);
    let j = next_feature(steps, i);
    if j >= steps.len() {
        a is Finish && run.phase is Over
    } else if feature_kind(steps[j].0) == Some(FeatureKind::Thunderbolt) {
        match run.thunderbolt_ip {
            Some(ip) => (a matches ApplyAction::ConfigureThunderbolt(x) && x@ == ip@)
                && run.phase == ApplyPhase::Feature(j as usize),
            None => (a matches ApplyAction::Fail { message, save_state } && !save_state
                && message@ == "thunderbolt step enabled but no [[ssh]] with link=thunderbolt"@)
                && run.phase is Over,
        }
    } else {
        a == ApplyAction::RunFeature(feature_kind(steps[j].0)->0) && run.phase
            == ApplyPhase::Feature(j as usize)
    }
}

/// The recorded details after notes `before`, then the skipped features
/// between `i` and the next feature that runs.
pub open spec fn details_after_skips(run: ApplyRun, before: spec_fn(Seq<char>) -> Option<Seq<char>>, i: int) -> bool {
    let steps = step_views(run.plan.steps@);
    let skipped = ids_of(skipped_between(steps, i, next_feature(steps, i)));
    forall|k: Seq<char>| #[trigger] run.state.step_detail_spec(k) == if skipped.contains(k) {
        Some("skipped"@)
    } else {
        before(k)
    }
}

/// Files recorded: those before and the new ones, nothing else.
pub open spec fn files_noted(before: Seq<Seq<char>>, after: Seq<Seq<char>>, files: Seq<Seq<char>>) -> bool {
    forall|x: Seq<char>| #[trigger] after.contains(x) <==> (before.contains(x) || files.contains(x))
}

pub open spec fn bool_text(b: bool) -> Seq<char> {
    if b {
        "true"@
    } else {
        "false"@
    }
}

/// What the manifest records of linking the shell.
pub open spec fn link_note(l: LinkReport, product_rc: bool) -> Seq<char> {
    "config="@ + l.config_dir@ + " files="@ + decimal(l.written@.len()) + " rcs="@ + decimal(
        l.touched_rcs@.len(),
    ) + " product_rc="@ + bool_text(product_rc)
}

/// An item line under the step above.
pub open spec fn item_view(text: Seq<char>) -> ShownView {
    (Seq::<char>::empty(), Seq::<char>::empty(), text)
}

/// What the run shows of linking the shell: the config directory, the
/// template sources (when any), one line per rc file that took rig's block,
/// and which rc the shell ends up with.
pub open spec fn link_lines(l: LinkReport, zsh: bool) -> Seq<ShownView> {
    seq![("ok"@, "link-shell"@, "→ "@ + l.config_dir@)] + (if l.sources@.len() > 0 {
        seq![item_view("sources  "@ + join(views(l.sources@), ", "@))]
    } else {
        seq![]
    }) + views(l.touched_rcs@).map_values(|p: Seq<char>| item_view("snippet  "@ + p)) + seq![
        item_view(
            if zsh {
                "product rc  OMZ + p10k"@
            } else {
                "thin shell  common.sh; product rc optional"@
            },
        ),
    ]
}

/// The run as it stands between steps, unchanged in what it was made with.
pub open spec fn same_setup(a: ApplyRun, b: ApplyRun) -> bool {
    &&& a.plan == b.plan
    &&& a.shell == b.shell
    &&& a.os == b.os
    &&& a.skip_packages == b.skip_packages
    &&& a.thunderbolt_ip == b.thunderbolt_ip
    &&& a.state.host == b.state.host
    &&& a.state.role == b.state.role
    &&& a.state.package_sets == b.state.package_sets
}

fn note_files(st: &mut RigState, files: &Vec<String>)
    ensures
        views(old(st).managed_files@).no_duplicates() ==> views(final(st).managed_files@).no_duplicates(),
        files_noted(views(old(st).managed_files@), views(final(st).managed_files@), views(files@)),
        final(st).steps == old(st).steps,
        final(st).host == old(st).host,
        final(st).role == old(st).role,
        final(st).package_sets == old(st).package_sets,
        final(st).schema_version == old(st).schema_version,
{
    let ghost start = views(st.managed_files@);
    let mut i: usize = 0;
    while i < files.len()
        invariant
            i <= files.len(),
            files_noted(start, views(st.managed_files@), views(files@.subrange(0, i as int))),
            start == views(old(st).managed_files@),
            start.no_duplicates() ==> views(st.managed_files@).no_duplicates(),
            st.steps == old(st).steps,
            st.host == old(st).host,
            st.role == old(st).role,
            st.package_sets == old(st).package_sets,
            st.schema_version == old(st).schema_version,
        decreases files.len() - i,
    {
        let ghost prev = views(st.managed_files@);
        st.note_file(files[i].as_str());
        proof {
            let sub = views(files@.subrange(0, i as int));
            let sub1 = views(files@.subrange(0, i + 1));
            assert(sub1 =~= sub.push(files@[i as int]@));
            assert forall|x: Seq<char>| #[trigger] views(st.managed_files@).contains(x) <==> (
            start.contains(x) || sub1.contains(x)) by {
                if x == files@[i as int]@ {
                    assert(sub1[i as int] == x);
                    if !prev.contains(x) {
                        assert(views(st.managed_files@)[prev.len() as int] == x);
                    }
                } else {
                    if views(st.managed_files@).contains(x) && !prev.contains(x) {
                        let k = choose|k: int| 0 <= k < views(st.managed_files@).len() && views(
                            st.managed_files@,
                        )[k] == x;
                        if k < prev.len() {
                            assert(prev[k] == x);
                        }
                    }
                    if prev.contains(x) {
                        let k = choose|k: int| 0 <= k < prev.len() && prev[k] == x;
                        assert(views(st.managed_files@)[k] == x);
                    }
                    if sub1.contains(x) {
                        let k = choose|k: int| 0 <= k < sub1.len() && sub1[k] == x;
                        assert(sub[k] == x);
                    }
                    if sub.contains(x) {
                        let k = choose|k: int| 0 <= k < sub.len() && sub[k] == x;
                        assert(sub1[k] == x);
                    }
                }
            }
        }
        i = i + 1;
    }
    assert(files@.subrange(0, files.len() as int) =~= files@);
}

/// Goes on from feature index `i`: turned-off feature steps are recorded as
/// skipped and shown, up to the next one that runs.
fn continue_features(run: &mut ApplyRun, i: usize, out: &mut Vec<ShownStep>) -> (a: ApplyAction)
    requires
        old(run).state.well_formed(),
        views(old(run).state.managed_files@).no_duplicates(),
        i <= old(run).plan.steps@.len(),
    ensures
        run_wf(*final(run)),
        same_setup(*old(run), *final(run)),
        final(run).state.managed_files == old(run).state.managed_files,
        feature_action(*final(run), i as int, a),
        details_after_skips(*final(run), |k: Seq<char>| old(run).state.step_detail_spec(k), i as int),
        shown_views(final(out)@) == shown_views(old(out)@) + skip_lines(
            skipped_between(step_views(old(run).plan.steps@), i as int, next_feature(step_views(old(run).plan.steps@), i as int)),
        ),
{
    let ghost steps = step_views(run.plan.steps@);
    let ghost st0 = run.state;
    let ghost out0 = shown_views(out@);
    let mut k: usize = i;
    while k < run.plan.steps.len()
        invariant
            i <= k <= run.plan.steps@.len(),
            steps == step_views(run.plan.steps@),
            same_setup(*old(run), *run),
            run.state.managed_files == old(run).state.managed_files,
            views(old(run).state.managed_files@).no_duplicates(),
            run.state.well_formed(),
            st0 == old(run).state,
            out0 == shown_views(old(out)@),
            next_feature(steps, i as int) == next_feature(steps, k as int),
            forall|x: Seq<char>| #[trigger] run.state.step_detail_spec(x) == if ids_of(
                skipped_between(steps, i as int, k as int),
            ).contains(x) {
                Some("skipped"@)
            } else {
                st0.step_detail_spec(x)
            },
            shown_views(out@) == out0 + skip_lines(skipped_between(steps, i as int, k as int)),
            forall|m: int| i <= m < k ==> !pending_feature(#[trigger] steps[m]),
        decreases run.plan.steps@.len() - k,
    {
        let kind = feature_kind_of(run.plan.steps[k].id.as_str());
        assert(steps[k as int] == run.plan.steps@[k as int]@);
        match kind {
            Some(kd) => {
                if !run.plan.steps[k].skip {
                    proof {
                        lemma_skipped_between_snoc(steps, i as int, k as int);
                    }
                    if kd == FeatureKind::Thunderbolt {
                        match &run.thunderbolt_ip {
                            Some(ip) => {
                                let ip2 = owned(ip.as_str());
                                run.phase = ApplyPhase::Feature(k);
                                return ApplyAction::ConfigureThunderbolt(ip2);
                            },
                            None => {
                                run.phase = ApplyPhase::Over;
                                return ApplyAction::Fail {
                                    message: owned(
                                        "thunderbolt step enabled but no [[ssh]] with link=thunderbolt",
                                    ),
                                    save_state: false,
                                };
                            },
                        }
                    }
                    run.phase = ApplyPhase::Feature(k);
                    return ApplyAction::RunFeature(kd);
                }
                let ghost before_st = run.state;
                let ghost before_out = shown_views(out@);
                run.state.note_step(run.plan.steps[k].id.as_str(), "skipped");
                let line = shown("skip", run.plan.steps[k].id.as_str(), run.plan.steps[k].detail.as_str());
                out.push(line);
                proof {
                    lemma_skipped_between_snoc(steps, i as int, k as int);
                    reveal_strlit("skip");
                    assert(shown_views(out@) =~= before_out.push(("skip"@, steps[k as int].0, steps[k as int].1)));
                    let sk = skipped_between(steps, i as int, k as int);
                    assert(skipped_between(steps, i as int, k + 1) =~= sk + seq![steps[k as int]]);
                    assert(skip_lines(sk + seq![steps[k as int]]) =~= skip_lines(sk).push(("skip"@, steps[k as int].0, steps[k as int].1)));
                    assert(ids_of(sk + seq![steps[k as int]]) =~= ids_of(sk).push(steps[k as int].0));
                    assert forall|x: Seq<char>| #[trigger] run.state.step_detail_spec(x) == if ids_of(
                        skipped_between(steps, i as int, k + 1),
                    ).contains(x) {
                        Some("skipped"@)
                    } else {
                        st0.step_detail_spec(x)
                    } by {
                        let ids0 = ids_of(sk);
                        let ids1 = ids0.push(steps[k as int].0);
                        if x != steps[k as int].0 {
                            if ids1.contains(x) {
                                let m = choose|m: int| 0 <= m < ids1.len() && ids1[m] == x;
                                assert(ids0[m] == x);
                            }
                            if ids0.contains(x) {
                                let m = choose|m: int| 0 <= m < ids0.len() && ids0[m] == x;
                                assert(ids1[m] == x);
                            }
                        } else {
                            assert(ids1[ids0.len() as int] == x);
                        }
                    }
                }
            },
            None => {
                proof {
                    lemma_skipped_between_snoc(steps, i as int, k as int);
                }
            },
        }
        k = k + 1;
    }
    proof {
        lemma_next_feature_end(steps, i as int, k as int);
    }
    run.phase = ApplyPhase::Over;
    ApplyAction::Finish
}

proof fn lemma_skipped_between_snoc(steps: Seq<StepView>, i: int, k: int)
    requires
        0 <= i <= k < steps.len(),
    ensures
        skipped_between(steps, i, k + 1) == skipped_between(steps, i, k) + if skipped_feature(
            steps[k],
        ) {
            seq![steps[k]]
        } else {
            seq![]
        },
        pending_feature(steps[k]) ==> next_feature(steps, k) == k,
        !pending_feature(steps[k]) ==> next_feature(steps, k) == next_feature(steps, k + 1),
    decreases k - i,
{
    if i < k {
        lemma_skipped_between_snoc(steps, i + 1, k);
        if skipped_feature(steps[i]) {
            assert(seq![steps[i]] + skipped_between(steps, i + 1, k + 1) =~= seq![steps[i]]
                + skipped_between(steps, i + 1, k) + if skipped_feature(steps[k]) {
                seq![steps[k]]
            } else {
                seq![]
            });
        }
    } else {
        assert(skipped_between(steps, k, k) =~= Seq::<StepView>::empty());
        assert(skipped_between(steps, k + 1, k + 1) =~= Seq::<StepView>::empty());
        if skipped_feature(steps[k]) {
            assert(skipped_between(steps, k, k + 1) =~= seq![steps[k]] + Seq::<StepView>::empty());
        }
        assert(Seq::<StepView>::empty() + seq![] =~= Seq::<StepView>::empty());
    }
}

proof fn lemma_next_feature_end(steps: Seq<StepView>, i: int, k: int)
    requires
        0 <= i <= k,
        k >= steps.len(),
    ensures
        next_feature(steps, k) == steps.len(),
{
}

// ---------------------------------------------------------------------------
// Starting and stepping the run
// ---------------------------------------------------------------------------

fn appended(a: &Vec<String>, b: &Vec<String>) -> (out: Vec<String>)
    ensures
        views(out@) == views(a@) + views(b@),
{
    let mut out = copy_strings(a);
    let mut i: usize = 0;
    while i < b.len()
        invariant
            i <= b.len(),
            views(out@) == views(a@) + views(b@.subrange(0, i as int)),
        decreases b.len() - i,
    {
        let ghost before = views(out@);
        out.push(owned(b[i].as_str()));
        assert(views(b@.subrange(0, i + 1)) =~= views(b@.subrange(0, i as int)).push(b@[i as int]@));
        assert(views(out@) =~= before.push(b@[i as int]@));
        i = i + 1;
    }
    assert(b@.subrange(0, b.len() as int) =~= b@);
    out
}

/// The first action of an apply, after the plan checks out: the state
/// manifest starts with the plan's host, role and package sets and the
/// validate step; zsh hosts get Oh My Zsh first, others go to linking the
/// shell. Without `yes` nothing runs.
pub fn execute(host: &Host, role: &Role, shell_env: &str, target_os: &str, yes: bool, skip_packages: bool) -> (r:
    Result<(ApplyRun, ApplyAction, Vec<ShownStep>), RigError>)
    ensures
        !yes ==> (r matches Err(e) && msg_text(e) == Some(
            "refusing to modify the system without --yes (-y)"@,
        )),
        yes ==> (r matches Ok((run, a, out)) && {
            &&& run_wf(run)
            &&& exists|user: Seq<char>| #[trigger] plan_matches(run.plan, *host, *role, shell_env@, target_os@, user)
            &&& host.user is Some ==> plan_matches(run.plan, *host, *role, shell_env@, target_os@, host.user->0@)
            &&& run.shell == spec_plan_shell(*host, *role, shell_env@)
            &&& run.os == spec_plan_os(*host, target_os@)
            &&& run.skip_packages == skip_packages
            &&& opt_view(run.thunderbolt_ip) == first_thunderbolt(spec_ssh_paths(*host), 0)
            &&& run.state.host@ == host.name@
            &&& run.state.role@ == host.role@
            &&& views(run.state.package_sets@) == views(run.plan.package_sets@)
            &&& run.state.managed_files@.len() == 0
            &&& forall|k: Seq<char>| #[trigger] run.state.step_detail_spec(k) == if k == "validate"@ {
                Some("role="@ + host.role@ + " ok"@)
            } else {
                None
            }
            &&& shown_views(out@) == seq![("ok"@, "validate"@, Seq::<char>::empty())]
            &&& run.shell == ShellKind::Zsh ==> a is EnsureOmz && run.phase is Omz
            &&& run.shell == ShellKind::Bash ==> a == ApplyAction::LinkShell {
                shell: ShellKind::Bash,
                product_rc: false,
            } && run.phase is LinkShell
        }),
{
    if !yes {
        return Err(RigError::Msg(owned("refusing to modify the system without --yes (-y)")));
    }
    let plan = build_plan(host, role, shell_env, target_os);
    proof {
        let u = choose|u: Seq<char>| #[trigger] plan_matches(plan, *host, *role, shell_env@, target_os@, u);
        assert(plan.host@ == host.name@ && plan.role@ == host.role@);
    }
    let shell = plan_shell(host, role, shell_env);
    let os = host.resolved_os(target_os);
    let tb = host.thunderbolt_ip();
    let mut state = RigState::new(plan.host.as_str(), plan.role.as_str());
    state.package_sets = copy_strings(&plan.package_sets);
    let ghost empty_state = state;
    assert(entry_views(empty_state.steps@) =~= Seq::<(Seq<char>, Seq<char>)>::empty());
    let note = concat3("role=", host.role.as_str(), " ok");
    state.note_step("validate", note.as_str());
    proof {
        reveal_strlit("validate");
        assert forall|k: Seq<char>| #[trigger] state.step_detail_spec(k) == if k == "validate"@ {
            Some("role="@ + host.role@ + " ok"@)
        } else {
            None
        } by {
            assert(empty_state.step_detail_spec(k) is None);
        }
    }
    let mut out: Vec<ShownStep> = Vec::new();
    out.push(shown("ok", "validate", ""));
    proof {
        reveal_strlit("ok");
        reveal_strlit("");
        assert(""@ =~= Seq::<char>::empty());
        assert(shown_views(out@) =~= seq![("ok"@, "validate"@, Seq::<char>::empty())]);
    }
    let (phase, a) = match shell {
        ShellKind::Zsh => (ApplyPhase::Omz, ApplyAction::EnsureOmz),
        ShellKind::Bash => (
            ApplyPhase::LinkShell,
            ApplyAction::LinkShell { shell: ShellKind::Bash, product_rc: false },
        ),
    };
    let run = ApplyRun { plan, shell, os, skip_packages, thunderbolt_ip: tb, state, phase };
    Ok((run, a, out))
}

/// How far a phase is into the run; `Over` comes after every step of a plan
/// of `n` steps.
pub open spec fn phase_rank(p: ApplyPhase, n: int) -> int {
    match p {
        ApplyPhase::Omz => 0,
        ApplyPhase::LinkShell => 1,
        ApplyPhase::LinkTmux => 2,
        ApplyPhase::Packages => 3,
        ApplyPhase::SshConfig => 4,
        ApplyPhase::Feature(i) => 5 + i,
        ApplyPhase::Over => 5 + n,
    }
}

proof fn lemma_next_feature_ge(steps: Seq<StepView>, i: int)
    requires
        0 <= i,
    ensures
        next_feature(steps, i) >= i || next_feature(steps, i) == steps.len(),
        next_feature(steps, i) <= steps.len(),
    decreases steps.len() - i,
{
    if i < steps.len() && !pending_feature(steps[i]) {
        lemma_next_feature_ge(steps, i + 1);
    }
}

/// The recorded details: `k` now holds `d`, the rest as in `old`.
pub open spec fn noted(old: RigState, new: RigState, k: Seq<char>, d: Seq<char>) -> bool {
    forall|x: Seq<char>| #[trigger] new.step_detail_spec(x) == if x == k {
        Some(d)
    } else {
        old.step_detail_spec(x)
    }
}

/// The reason the package step is skipped.
pub open spec fn packages_skip_reason(skip_packages: bool) -> Seq<char> {
    if skip_packages {
        "skipped (--skip-packages)"@
    } else {
        "skipped (empty)"@
    }
}

pub open spec fn opt_list(o: Option<String>) -> Seq<Seq<char>> {
    match o {
        Some(s) => seq![s@],
        None => seq![],
    }
}

/// One step of an apply: `event` is what came of the last action. The step
/// is recorded in the state manifest and shown; a failed step stops the run
/// (saving the manifest); otherwise the next step of the plan follows.
pub fn apply_step(run: &mut ApplyRun, event: ApplyEvent) -> (r: (ApplyAction, Vec<ShownStep>))
    requires
        run_wf(*old(run)),
        answers(old(run).phase, event),
    ensures
        run_wf(*final(run)),
        same_setup(*old(run), *final(run)),
        phase_rank(final(run).phase, old(run).plan.steps@.len() as int) > phase_rank(
            old(run).phase,
            old(run).plan.steps@.len() as int,
        ),
        ({
            let o = old(run).state;
            let f = final(run).state;
            let a = r.0;
            let out = shown_views(r.1@);
            let steps = step_views(old(run).plan.steps@);
            match event {
                ApplyEvent::Omz(rep) => {
                    &&& noted(o, f, "omz"@, rep.detail@)
                    &&& f.managed_files == o.managed_files
                    &&& if rep.ok {
                        &&& out == seq![("ok"@, "omz"@, rep.detail@)]
                        &&& a == ApplyAction::LinkShell {
                            shell: old(run).shell,
                            product_rc: old(run).shell == ShellKind::Zsh,
                        }
                        &&& final(run).phase is LinkShell
                    } else {
                        &&& out == seq![("fail"@, "omz"@, rep.detail@)]
                        &&& (a matches ApplyAction::Fail { message, save_state } && save_state
                            && message@ == "omz failed: "@ + rep.detail@)
                        &&& final(run).phase is Over
                    }
                },
                ApplyEvent::ShellLinked(l) => {
                    &&& noted(o, f, "link-shell"@, link_note(l, old(run).shell == ShellKind::Zsh))
                    &&& files_noted(views(o.managed_files@), views(f.managed_files@), views(l.written@) + views(l.touched_rcs@))
                    &&& out == link_lines(l, old(run).shell == ShellKind::Zsh)
                    &&& a is LinkTmux
                    &&& final(run).phase is LinkTmux
                },
                ApplyEvent::TmuxLinked(t) => {
                    &&& files_noted(views(o.managed_files@), views(f.managed_files@), opt_list(t.linked) + views(t.extra@))
                    &&& if old(run).skip_packages || old(run).plan.package_sets@.len() == 0 {
                        let why = packages_skip_reason(old(run).skip_packages);
                        &&& forall|x: Seq<char>| #[trigger] f.step_detail_spec(x) == if x == "packages"@ {
                            Some(why)
                        } else if x == "link-tmux"@ {
                            Some(t.detail@)
                        } else {
                            o.step_detail_spec(x)
                        }
                        &&& out == seq![("ok"@, "link-tmux"@, t.detail@), ("skip"@, "packages"@, why)]
                        &&& a is WriteSshConfig
                        &&& final(run).phase is SshConfig
                    } else {
                        &&& noted(o, f, "link-tmux"@, t.detail@)
                        &&& out == seq![("ok"@, "link-tmux"@, t.detail@)]
                        &&& a is InstallPackages
                        &&& final(run).phase is Packages
                    }
                },
                ApplyEvent::Packages(p) => {
                    &&& noted(o, f, "packages"@, p.backend@ + ": "@ + p.detail@)
                    &&& f.managed_files == o.managed_files
                    &&& if p.ok {
                        &&& out == seq![("ok"@, "packages"@, p.backend@ + "  "@ + p.detail@)]
                        &&& a is WriteSshConfig
                        &&& final(run).phase is SshConfig
                    } else {
                        &&& out == seq![("fail"@, "packages"@, p.backend@ + "  "@ + p.detail@)]
                        &&& (a matches ApplyAction::Fail { message, save_state } && save_state
                            && message@ == "package step failed: "@ + p.detail@)
                        &&& final(run).phase is Over
                    }
                },
                ApplyEvent::SshConfig(path) => {
                    &&& files_noted(views(o.managed_files@), views(f.managed_files@), seq![path@])
                    &&& details_after_skips(*final(run), |x: Seq<char>| if x == "ssh-config"@ {
                        Some(path@)
                    } else {
                        o.step_detail_spec(x)
                    }, 0)
                    &&& out == seq![("ok"@, "ssh-config"@, "→ "@ + path@)] + skip_lines(
                        skipped_between(steps, 0, next_feature(steps, 0)),
                    )
                    &&& feature_action(*final(run), 0, a)
                },
                ApplyEvent::Feature(rep, files) => {
                    let i = match old(run).phase {
                        ApplyPhase::Feature(i) => i as int,
                        _ => 0,
                    };
                    let id = steps[i].0;
                    &&& files_noted(views(o.managed_files@), views(f.managed_files@), views(files@))
                    &&& if rep.ok {
                        &&& details_after_skips(*final(run), |x: Seq<char>| if x == id {
                            Some(rep.detail@)
                        } else {
                            o.step_detail_spec(x)
                        }, i + 1)
                        &&& out == seq![("ok"@, id, rep.detail@)] + skip_lines(
                            skipped_between(steps, i + 1, next_feature(steps, i + 1)),
                        )
                        &&& feature_action(*final(run), i + 1, a)
                    } else {
                        &&& noted(o, f, id, rep.detail@)
                        &&& out == seq![("fail"@, id, rep.detail@)]
                        &&& (a matches ApplyAction::Fail { message, save_state } && save_state
                            && message@ == id + " failed: "@ + rep.detail@)
                        &&& final(run).phase is Over
                    }
                },
            }
        }),
{
    let mut out: Vec<ShownStep> = Vec::new();
    proof {
        reveal_strlit("ok");
        reveal_strlit("fail");
        reveal_strlit("skip");
    }
    match event {
        ApplyEvent::Omz(rep) => {
            run.state.note_step("omz", rep.detail.as_str());
            if rep.ok {
                out.push(shown("ok", "omz", rep.detail.as_str()));
                assert(shown_views(out@) =~= seq![("ok"@, "omz"@, rep.detail@)]);
                run.phase = ApplyPhase::LinkShell;
                let zsh = match run.shell {
                    ShellKind::Zsh => true,
                    ShellKind::Bash => false,
                };
                (ApplyAction::LinkShell { shell: run.shell, product_rc: zsh }, out)
            } else {
                out.push(shown("fail", "omz", rep.detail.as_str()));
                assert(shown_views(out@) =~= seq![("fail"@, "omz"@, rep.detail@)]);
                run.phase = ApplyPhase::Over;
                let message = concat2("omz failed: ", rep.detail.as_str());
                (ApplyAction::Fail { message, save_state: true }, out)
            }
        },
        ApplyEvent::ShellLinked(l) => {
            let files = appended(&l.written, &l.touched_rcs);
            note_files(&mut run.state, &files);
            let zsh = match run.shell {
                ShellKind::Zsh => true,
                ShellKind::Bash => false,
            };
            let mut note = concat2("config=", l.config_dir.as_str());
            push_str(&mut note, " files=");
            let n = decimal_string(l.written.len() as u64);
            push_str(&mut note, n.as_str());
            push_str(&mut note, " rcs=");
            let m = decimal_string(l.touched_rcs.len() as u64);
            push_str(&mut note, m.as_str());
            push_str(&mut note, " product_rc=");
            push_str(&mut note, if zsh { "true" } else { "false" });
            proof {
                reveal_strlit("true");
                reveal_strlit("false");
            }
            assert(note@ == link_note(l, run.shell == ShellKind::Zsh));
            run.state.note_step("link-shell", note.as_str());
            let d = concat2("→ ", l.config_dir.as_str());
            out.push(shown("ok", "link-shell", d.as_str()));
            assert(shown_views(out@) =~= seq![("ok"@, "link-shell"@, "→ "@ + l.config_dir@)]);
            let ghost head = shown_views(out@);
            proof {
                reveal_strlit("");
                assert(""@ =~= Seq::<char>::empty());
            }
            if l.sources.len() > 0 {
                let j = join_strings(l.sources.as_slice(), ", ");
                let t = concat2("sources  ", j.as_str());
                out.push(shown("", "", t.as_str()));
                assert(shown_views(out@) =~= head.push(item_view("sources  "@ + join(views(l.sources@), ", "@))));
            }
            let ghost with_src = shown_views(out@);
            assert(with_src =~= head + (if l.sources@.len() > 0 {
                seq![item_view("sources  "@ + join(views(l.sources@), ", "@))]
            } else {
                seq![]
            }));
            let ghost rcs = views(l.touched_rcs@);
            let mut k: usize = 0;
            while k < l.touched_rcs.len()
                invariant
                    k <= l.touched_rcs.len(),
                    rcs == views(l.touched_rcs@),
                    ""@ == Seq::<char>::empty(),
                    shown_views(out@) == with_src + rcs.map_values(|p: Seq<char>| item_view("snippet  "@ + p)).subrange(
                        0,
                        k as int,
                    ),
                decreases l.touched_rcs.len() - k,
            {
                let ghost b = shown_views(out@);
                let t = concat2("snippet  ", l.touched_rcs[k].as_str());
                out.push(shown("", "", t.as_str()));
                assert(rcs[k as int] == l.touched_rcs@[k as int]@);
                assert(shown_views(out@) =~= b.push(item_view("snippet  "@ + rcs[k as int])));
                assert(shown_views(out@) =~= with_src + rcs.map_values(|p: Seq<char>| item_view("snippet  "@ + p)).subrange(
                    0,
                    k + 1,
                ));
                k = k + 1;
            }
            assert(rcs.map_values(|p: Seq<char>| item_view("snippet  "@ + p)).subrange(0, rcs.len() as int)
                =~= rcs.map_values(|p: Seq<char>| item_view("snippet  "@ + p)));
            let ghost with_rcs = shown_views(out@);
            let last = if zsh {
                "product rc  OMZ + p10k"
            } else {
                "thin shell  common.sh; product rc optional"
            };
            out.push(shown("", "", last));
            assert(shown_views(out@) =~= with_rcs.push(item_view(last@)));
            assert(shown_views(out@) =~= link_lines(l, run.shell == ShellKind::Zsh));
            run.phase = ApplyPhase::LinkTmux;
            (ApplyAction::LinkTmux, out)
        },
        ApplyEvent::TmuxLinked(t) => {
            let mut first: Vec<String> = Vec::new();
            match &t.linked {
                Some(p) => {
                    first.push(owned(p.as_str()));
                },
                None => {},
            }
            assert(views(first@) =~= opt_list(t.linked));
            let files = appended(&first, &t.extra);
            note_files(&mut run.state, &files);
            let ghost o1 = run.state;
            run.state.note_step("link-tmux", t.detail.as_str());
            out.push(shown("ok", "link-tmux", t.detail.as_str()));
            if run.skip_packages || run.plan.package_sets.len() == 0 {
                let why = if run.skip_packages {
                    "skipped (--skip-packages)"
                } else {
                    "skipped (empty)"
                };
                run.state.note_step("packages", why);
                out.push(shown("skip", "packages", why));
                proof {
                    reveal_strlit("packages");
                    reveal_strlit("link-tmux");
                    assert("packages"@ != "link-tmux"@) by {
                        assert("packages"@[0] != "link-tmux"@[0]);
                    }
                }
                assert(shown_views(out@) =~= seq![
                    ("ok"@, "link-tmux"@, t.detail@),
                    ("skip"@, "packages"@, packages_skip_reason(run.skip_packages)),
                ]);
                run.phase = ApplyPhase::SshConfig;
                (ApplyAction::WriteSshConfig, out)
            } else {
                assert(shown_views(out@) =~= seq![("ok"@, "link-tmux"@, t.detail@)]);
                run.phase = ApplyPhase::Packages;
                (ApplyAction::InstallPackages, out)
            }
        },
        ApplyEvent::Packages(p) => {
            let note = concat3(p.backend, ": ", p.detail.as_str());
            run.state.note_step("packages", note.as_str());
            let d = concat3(p.backend, "  ", p.detail.as_str());
            if p.ok {
                out.push(shown("ok", "packages", d.as_str()));
                assert(shown_views(out@) =~= seq![("ok"@, "packages"@, p.backend@ + "  "@ + p.detail@)]);
                run.phase = ApplyPhase::SshConfig;
                (ApplyAction::WriteSshConfig, out)
            } else {
                out.push(shown("fail", "packages", d.as_str()));
                assert(shown_views(out@) =~= seq![("fail"@, "packages"@, p.backend@ + "  "@ + p.detail@)]);
                run.phase = ApplyPhase::Over;
                let message = concat2("package step failed: ", p.detail.as_str());
                (ApplyAction::Fail { message, save_state: true }, out)
            }
        },
        ApplyEvent::SshConfig(path) => {
            let mut one: Vec<String> = Vec::new();
            one.push(owned(path.as_str()));
            assert(views(one@) =~= seq![path@]);
            note_files(&mut run.state, &one);
            run.state.note_step("ssh-config", path.as_str());
            let d = concat2("→ ", path.as_str());
            out.push(shown("ok", "ssh-config", d.as_str()));
            let ghost first = shown_views(out@);
            assert(first =~= seq![("ok"@, "ssh-config"@, "→ "@ + path@)]);
            proof {
                lemma_next_feature_ge(step_views(run.plan.steps@), 0);
            }
            let a = continue_features(run, 0, &mut out);
            (a, out)
        },
        ApplyEvent::Feature(rep, files) => {
            let i = match run.phase {
                ApplyPhase::Feature(i) => i,
                _ => 0,
            };
            let n_steps = run.plan.steps.len();
            assert(i < n_steps);
            note_files(&mut run.state, &files);
            let id = owned(run.plan.steps[i].id.as_str());
            assert(step_views(run.plan.steps@)[i as int].0 == id@);
            run.state.note_step(id.as_str(), rep.detail.as_str());
            if rep.ok {
                out.push(shown("ok", id.as_str(), rep.detail.as_str()));
                let ghost first = shown_views(out@);
                assert(first =~= seq![("ok"@, id@, rep.detail@)]);
                proof {
                    lemma_next_feature_ge(step_views(run.plan.steps@), i + 1);
                }
                let a = continue_features(run, i + 1, &mut out);
                (a, out)
            } else {
                out.push(shown("fail", id.as_str(), rep.detail.as_str()));
                assert(shown_views(out@) =~= seq![("fail"@, id@, rep.detail@)]);
                run.phase = ApplyPhase::Over;
                let message = concat3(id.as_str(), " failed: ", rep.detail.as_str());
                (ApplyAction::Fail { message, save_state: true }, out)
            }
        },
    }
}

} // verus!
