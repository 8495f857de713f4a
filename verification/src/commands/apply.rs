//! `rig apply`: the plan as it will run, before the run itself.
use vstd::prelude::*;
use crate::ui::{kv_line};
use crate::apply::plan::{step_views, ApplyPlan, StepView};
use crate::error::{msg_text, RigError};
use crate::text::{concat2, concat3, join as join_text, join_strings, push_str, str_eq, views};
use crate::ui::{
    item, section, kv, plan, preview, spec_field_line, spec_step_line, spec_tidy, spec_wrap, title, Style, BOLD, CYAN,
    DIM, YELLOW,
};

verus! {

/// Whether a step runs: not skipped by the plan, and not the packages step
/// when packages are skipped.
pub open spec fn runs(s: StepView, skip_packages: bool) -> bool {
    !(s.2 || (skip_packages && s.0 == "packages"@))
}

/// The preview of `rig apply`: title, root, host, role, OS (noting when it
/// was detected), shell, user, package sets, a blank line, a line per step;
/// then how to run it, when not confirmed.
pub open spec fn spec_apply_preview(
    root: Seq<char>,
    p: ApplyPlan,
    os_detected: bool,
    skip_packages: bool,
    yes: bool,
    st: Style,
) -> Seq<Seq<char>> {
    let steps = step_views(p.steps@);
    seq![
        spec_wrap(st.color, BOLD@ + CYAN@, "apply"@) + (if !yes {
            "  "@ + spec_wrap(st.color, DIM@, "preview"@)
        } else {
            seq![]
        }),
        kv_line(st, "root"@, root),
        kv_line(st, "host"@, p.host@),
        kv_line(st, "role"@, p.role@),
        kv_line(st, "os"@, p.os@ + (if os_detected { "  detected"@ } else { seq![] })),
        kv_line(st, "shell"@, p.shell@),
        kv_line(st, "user"@, p.user@),
        kv_line(
            st,
            "packages"@,
            join_text(views(p.package_sets@), " + "@) + (if skip_packages { "  skip"@ } else { seq![] }),
        ),
        seq![],
    ] + Seq::new(
        steps.len(),
        |i: int| spec_step_line(st, if runs(steps[i], skip_packages) { "do"@ } else { "skip"@ }, steps[i].0, steps[i].1),
    ) + (if !yes {
        seq![seq![], spec_field_line(st, DIM@, ""@, DIM@, ""@, DIM@, spec_tidy("pass --yes (-y) to "@ + "apply"@, st))]
    } else {
        seq![]
    })
}

/// The lines `rig apply` prints before running: the plan, and when not
/// confirmed with `yes`, how to run it (`os_detected` when the host file
/// leaves the OS out).
pub fn apply_preview(root: &str, p: &ApplyPlan, os_detected: bool, skip_packages: bool, yes: bool, st: &Style) -> (r: Vec<
    String,
>)
    ensures
        views(r@) == spec_apply_preview(root@, *p, os_detected, skip_packages, yes, *st),
{
    let mut r: Vec<String> = Vec::new();
    r.push(title("apply", !yes, st));
    r.push(kv("root", root, st));
    r.push(kv("host", p.host.as_str(), st));
    r.push(kv("role", p.role.as_str(), st));
    let os = concat2(p.os.as_str(), if os_detected { "  detected" } else { "" });
    r.push(kv("os", os.as_str(), st));
    r.push(kv("shell", p.shell.as_str(), st));
    r.push(kv("user", p.user.as_str(), st));
    let sets = join_strings(p.package_sets.as_slice(), " + ");
    let pk = concat2(sets.as_str(), if skip_packages { "  skip" } else { "" });
    r.push(kv("packages", pk.as_str(), st));
    r.push(String::new());
    proof {
        reveal_strlit("");
    }
    let ghost h = views(r@);
    assert(h =~= seq![
        spec_wrap(st.color, BOLD@ + CYAN@, "apply"@) + (if !yes {
            "  "@ + spec_wrap(st.color, DIM@, "preview"@)
        } else {
            seq![]
        }),
        kv_line(*st, "root"@, root@),
        kv_line(*st, "host"@, p.host@),
        kv_line(*st, "role"@, p.role@),
        kv_line(*st, "os"@, p.os@ + (if os_detected { "  detected"@ } else { seq![] })),
        kv_line(*st, "shell"@, p.shell@),
        kv_line(*st, "user"@, p.user@),
        kv_line(*st, "packages"@, join_text(views(p.package_sets@), " + "@) + (if skip_packages { "  skip"@ } else { seq![] })),
        seq![],
    ]);
    let ghost steps = step_views(p.steps@);
    let mut i: usize = 0;
    while i < p.steps.len()
        invariant
            i <= p.steps.len(),
            steps == step_views(p.steps@),
            views(r@) == h + Seq::new(
                i as nat,
                |k: int| spec_step_line(*st, if runs(steps[k], skip_packages) { "do"@ } else { "skip"@ }, steps[k].0, steps[k].1),
            ),
        decreases p.steps.len() - i,
    {
        let s = &p.steps[i];
        assert(steps[i as int] == (s.id@, s.detail@, s.skip));
        let do_it = !(s.skip || (skip_packages && str_eq(s.id.as_str(), "packages")));
        let ghost b = views(r@);
        assert(do_it == runs(steps[i as int], skip_packages));
        let line = plan(do_it, s.id.as_str(), s.detail.as_str(), st);
        r.push(line);
        assert(views(r@) =~= b.push(spec_step_line(*st, if runs(steps[i as int], skip_packages) { "do"@ } else { "skip"@ }, steps[i as int].0, steps[i as int].1)));
        assert(views(r@) =~= h + Seq::new(
            (i + 1) as nat,
            |k: int| spec_step_line(*st, if runs(steps[k], skip_packages) { "do"@ } else { "skip"@ }, steps[k].0, steps[k].1),
        ));
        i = i + 1;
    }
    let ghost m = views(r@);
    assert(steps.len() == p.steps@.len());
    if !yes {
        let mut t = preview("apply", st);
        let ghost tv = views(t@);
        r.append(&mut t);
        assert(views(r@) =~= m + tv);
    } else {
        assert(views(r@) =~= m + Seq::<Seq<char>>::empty());
    }
    assert(views(r@) =~= spec_apply_preview(root@, *p, os_detected, skip_packages, yes, *st));
    r
}

/// The error when this machine has no host file.
pub fn not_registered(hostname: &str) -> (e: RigError)
    ensures
        msg_text(e) == Some("this machine is not registered (hostname="@ + hostname@ + "). run `rig init` first"@),
{
    RigError::Msg(concat3("this machine is not registered (hostname=", hostname, "). run `rig init` first"))
}

/// What a finished apply prints: where the state went, then where to
/// customize.
pub open spec fn spec_apply_done(root: Seq<char>, state_path: Seq<char>, host: Seq<char>, st: Style) -> Seq<Seq<char>> {
    seq![
        seq![],
        kv_line(st, "state"@, state_path),
        spec_wrap(st.color, BOLD@ + CYAN@, "done"@),
        seq![],
        "  "@ + spec_wrap(st.color, DIM@, "customize"@),
        kv_line(st, "host"@, root + "/hosts/"@ + host + ".toml"@),
        kv_line(st, "overlay"@, root + "/overlay/"@),
        spec_field_line(st, DIM@, ""@, DIM@, ""@, DIM@, spec_tidy("leave templates/ alone — use overlay/"@, st)),
        kv_line(st, "peers"@, "add hosts/<peer>.toml with [[ssh]], then rig ssh-config --yes"@),
    ]
}

pub fn apply_done(root: &str, state_path: &str, host: &str, st: &Style) -> (r: Vec<String>)
    ensures
        views(r@) == spec_apply_done(root@, state_path@, host@, *st),
{
    let mut r: Vec<String> = Vec::new();
    r.push(String::new());
    r.push(kv("state", state_path, st));
    r.push(title("done", false, st));
    r.push(String::new());
    r.push(section("customize", st));
    let mut h = concat3(root, "/hosts/", host);
    push_str(&mut h, ".toml");
    r.push(kv("host", h.as_str(), st));
    let o = concat2(root, "/overlay/");
    r.push(kv("overlay", o.as_str(), st));
    r.push(item("leave templates/ alone — use overlay/", st));
    r.push(kv("peers", "add hosts/<peer>.toml with [[ssh]], then rig ssh-config --yes", st));
    proof {
        reveal_strlit("");
    }
    assert(views(r@) =~= spec_apply_done(root@, state_path@, host@, *st));
    r
}

} // verus!
