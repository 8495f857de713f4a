use rig::apply::features::validate_ipv4;
use rig::apply::link::{managed_snippet, resolve_shell_file, symlink_action, SymlinkAction};
use rig::apply::link_plan::{
    apply_cursor, link_shell, link_tmux, CursorFileProbe, CursorProbes, LinkOp, LinkProbes, LinkTargetProbe,
    TemplateProbe, TmuxProbes, TreeProbe,
};
use rig::apply::omz::{ensure_omz_stack, omz_step, OmzAction, OmzEvent};
use rig::apply::features::StepReport;
use rig::apply::link::LinkReport;
use rig::apply::run::{apply_step, execute, ApplyAction, ApplyEvent, FeatureKind};
use rig::apply::tmux::TmuxReport;
use rig::apply::system::apply_thunderbolt;
use rig::error::RigError;
use rig::paths::{discover_root, embedded_refresh_needed, ensure_hosts_inventory, InventoryOp, LegacyHosts, RootChoice};
use rig::schema::host::{HostFeatures, HostPackages};
use rig::schema::{Host, OsKind, Role, RoleFeatures, ShellKind};

fn msg(e: RigError) -> String {
    match e {
        RigError::Msg(m) => m,
        other => panic!("not a message: {other:?}"),
    }
}

fn nothing() -> LinkTargetProbe {
    LinkTargetProbe { is_symlink: false, target: None, is_file: false, exists: false }
}

fn no_tree() -> TreeProbe {
    TreeProbe { overlay_is_dir: false, template_is_dir: false, files: Vec::new() }
}

fn shipped() -> TemplateProbe {
    TemplateProbe { overlay_is_file: false, template_is_file: true }
}

fn describe(ops: &[LinkOp]) -> Vec<String> {
    ops.iter()
        .map(|o| match o {
            LinkOp::CreateDir(p) => format!("mkdir {p}"),
            LinkOp::Copy { from, to } => format!("cp {from} {to}"),
            LinkOp::RemoveFile(p) => format!("rm {p}"),
            LinkOp::Rename { from, to } => format!("mv {from} {to}"),
            LinkOp::Symlink { src, dst } => format!("ln {src} {dst}"),
            LinkOp::WriteEmpty(p) => format!("touch {p}"),
            LinkOp::EnsureSnippet { path, .. } => format!("block {path}"),
            LinkOp::MakeExecutable(p) => format!("chmod-all {p}"),
            LinkOp::Chmod(p) => format!("chmod {p}"),
        })
        .collect()
}

#[test]
fn bash_link_plan() {
    let p = LinkProbes {
        common: TemplateProbe { overlay_is_file: true, template_is_file: true },
        rc: shipped(),
        profile: shipped(),
        p10k: shipped(),
        tips: shipped(),
        scripts: no_tree(),
        fastfetch: no_tree(),
        home: Some("/h".into()),
        p10k_link: nothing(),
        secs: 7,
    };
    let plan = link_shell("/r", "/c", ShellKind::Bash, false, &p);
    assert_eq!(
        describe(&plan.ops),
        vec![
            "mkdir /c/shell",
            "cp /r/overlay/shell/common/profile.sh /c/shell/common.sh",
            "cp /r/templates/shell/bash/bashrc /c/shell/bashrc",
            "cp /r/templates/shell/bash/bash_profile /c/shell/bash_profile",
            "block /h/.bash_profile",
            "block /h/.bashrc",
        ]
    );
    let r = plan.outcome.ok().unwrap();
    assert_eq!(r.config_dir, "/c");
    assert_eq!(r.sources, vec!["common←overlay", "rc←templates", "profile←templates"]);
    assert_eq!(r.touched_rcs, vec!["/h/.bash_profile", "/h/.bashrc"]);
    match &plan.ops[5] {
        LinkOp::EnsureSnippet { snippet, .. } => assert_eq!(snippet, &managed_snippet("/r", "/c", ShellKind::Bash, true)),
        _ => panic!("not a block"),
    }
}

#[test]
fn zsh_link_plan_links_p10k_and_trees() {
    let p = LinkProbes {
        common: shipped(),
        rc: shipped(),
        profile: shipped(),
        p10k: shipped(),
        tips: TemplateProbe { overlay_is_file: false, template_is_file: false },
        scripts: TreeProbe { overlay_is_dir: true, template_is_dir: true, files: vec!["a.sh".into()] },
        fastfetch: no_tree(),
        home: Some("/h".into()),
        p10k_link: LinkTargetProbe { is_symlink: false, target: None, is_file: true, exists: true },
        secs: 42,
    };
    let plan = link_shell("/r", "/c", ShellKind::Zsh, true, &p);
    let d = describe(&plan.ops);
    assert_eq!(d[4], "cp /r/templates/shell/zsh/p10k.zsh /c/shell/p10k.zsh");
    assert_eq!(d[5], "mv /h/.p10k.zsh /h/.p10k.zsh.bak.42");
    assert_eq!(d[6], "ln /c/shell/p10k.zsh /h/.p10k.zsh");
    assert_eq!(d[7], "mkdir /c/shell/scripts");
    assert_eq!(d[8], "cp /r/overlay/shell/scripts/a.sh /c/shell/scripts/a.sh");
    assert_eq!(d[9], "chmod-all /c/shell/scripts");
    assert_eq!(d[10], "touch /c/shell/use-product-rc");
    let r = plan.outcome.ok().unwrap();
    assert!(r.sources.contains(&"shell/scripts←overlay".to_string()));
    assert!(r.sources.contains(&"product-rc=on".to_string()));
    assert!(r.written.contains(&"/h/.p10k.zsh".to_string()));
}

#[test]
fn link_plan_errors() {
    let mut p = LinkProbes {
        common: shipped(),
        rc: TemplateProbe { overlay_is_file: false, template_is_file: false },
        profile: shipped(),
        p10k: shipped(),
        tips: shipped(),
        scripts: no_tree(),
        fastfetch: no_tree(),
        home: None,
        p10k_link: nothing(),
        secs: 0,
    };
    let plan = link_shell("/r", "/c", ShellKind::Zsh, false, &p);
    assert_eq!(plan.ops.len(), 2);
    assert_eq!(
        msg(plan.outcome.err().unwrap()),
        "missing shell template: overlay/shell/zsh/zshrc or templates/shell/zsh/zshrc"
    );
    p.rc = shipped();
    let plan = link_shell("/r", "/c", ShellKind::Bash, false, &p);
    assert_eq!(msg(plan.outcome.err().unwrap()), "HOME is not set");
    p.home = Some("/h".into());
    p.p10k_link = LinkTargetProbe { is_symlink: false, target: None, is_file: false, exists: true };
    let plan = link_shell("/r", "/c", ShellKind::Zsh, false, &p);
    assert_eq!(msg(plan.outcome.err().unwrap()), "refusing to replace non-file: /h/.p10k.zsh");
    match resolve_shell_file("/r", "x", false, false) {
        Err(e) => assert_eq!(msg(e), "missing shell template: overlay/x or templates/x"),
        Ok(_) => panic!("resolved"),
    }
    assert!(matches!(symlink_action("/a", "/b", true, Some("/a/"), false, true, 1), SymlinkAction::Keep));
}

#[test]
fn tmux_plan() {
    let p = TmuxProbes {
        conf: TemplateProbe { overlay_is_file: true, template_is_file: true },
        scripts: TreeProbe { overlay_is_dir: false, template_is_dir: true, files: vec!["bat.sh".into(), "cpu.sh".into()] },
        home: Some("/h".into()),
        dst: nothing(),
        secs: 1,
    };
    let (ops, rep) = link_tmux("/r", "/c/tmux/scripts", &p);
    assert_eq!(
        describe(&ops),
        vec![
            "mkdir /c/tmux/scripts",
            "cp /r/templates/tmux/scripts/bat.sh /c/tmux/scripts/bat.sh",
            "chmod /c/tmux/scripts/bat.sh",
            "cp /r/templates/tmux/scripts/cpu.sh /c/tmux/scripts/cpu.sh",
            "chmod /c/tmux/scripts/cpu.sh",
            "ln /r/overlay/tmux.conf /h/.tmux.conf",
        ]
    );
    let rep = rep.ok().unwrap();
    assert_eq!(rep.detail, "overlay → /h/.tmux.conf  2 scripts");
    assert_eq!(rep.linked.as_deref(), Some("/h/.tmux.conf"));
    let none = TmuxProbes { conf: TemplateProbe { overlay_is_file: false, template_is_file: false }, ..p };
    let (ops, rep) = link_tmux("/r", "/c", &none);
    assert!(ops.is_empty());
    assert_eq!(
        msg(rep.err().unwrap()),
        "missing tmux template (templates/tmux/tmux.conf or overlay/tmux.conf)"
    );
}

#[test]
fn cursor_plan() {
    let probe = |o: bool, l: bool, e: bool, dst: LinkTargetProbe| CursorFileProbe {
        overlay_is_file: o,
        live_is_file: l,
        example_is_file: e,
        dst,
    };
    let p = CursorProbes {
        home: Some("/h".into()),
        settings: probe(true, false, false, nothing()),
        keybindings: probe(false, false, true, LinkTargetProbe { is_symlink: false, target: None, is_file: true, exists: true }),
        secs: 5,
    };
    let (ops, r) = apply_cursor("/r", OsKind::Linux, &p);
    assert_eq!(
        describe(&ops),
        vec![
            "mkdir /h/.config/Cursor/User",
            "ln /r/overlay/cursor/User/settings.json /h/.config/Cursor/User/settings.json",
        ]
    );
    let (rep, linked) = r.ok().unwrap();
    assert!(rep.ok);
    assert_eq!(
        rep.detail,
        "overlay+templates → /h/.config/Cursor/User; settings.json linked; keybindings.json already in place"
    );
    assert_eq!(linked, vec!["/h/.config/Cursor/User/settings.json"]);
    let none = CursorProbes {
        home: Some("/h".into()),
        settings: probe(false, false, false, nothing()),
        keybindings: probe(false, false, false, nothing()),
        secs: 0,
    };
    let (_, r) = apply_cursor("/r", OsKind::Macos, &none);
    assert_eq!(
        r.ok().unwrap().0.detail,
        "no cursor templates — add *.example under templates/cursor/User or overlay/cursor/User"
    );
    let (ops, r) = apply_cursor("/r", OsKind::Macos, &CursorProbes { home: None, ..none });
    assert!(ops.is_empty());
    assert_eq!(msg(r.err().unwrap()), "HOME is not set");
}

#[test]
fn omz_machine() {
    let (mut run, a) = ensure_omz_stack(Some("/h")).ok().unwrap();
    assert!(matches!(a, OmzAction::CheckDir(ref p) if p == "/h/.oh-my-zsh"));
    let a = omz_step(&mut run, OmzEvent::Dir(true));
    assert!(matches!(a, OmzAction::CheckDir(ref p) if p == "/h/.oh-my-zsh/custom/themes/powerlevel10k"));
    let a = omz_step(&mut run, OmzEvent::Dir(false));
    match a {
        OmzAction::Clone { url, dest, parent } => {
            assert_eq!(url, "https://github.com/romkatv/powerlevel10k.git");
            assert_eq!(dest, "/h/.oh-my-zsh/custom/themes/powerlevel10k");
            assert_eq!(parent, "/h/.oh-my-zsh/custom/themes");
        }
        _ => panic!("no clone"),
    }
    omz_step(&mut run, OmzEvent::Ran { ok: false, status: "exit status: 128".into() });
    omz_step(&mut run, OmzEvent::Dir(true));
    let a = omz_step(&mut run, OmzEvent::Dir(true));
    match a {
        OmzAction::Finish(r) => {
            assert!(r.ok);
            assert_eq!(
                r.detail,
                "oh-my-zsh present; powerlevel10k clone failed (exit status: 128); zsh-autosuggestions present; zsh-syntax-highlighting present"
            );
        }
        _ => panic!("not finished"),
    }
    let (mut run, _) = ensure_omz_stack(Some("/h")).ok().unwrap();
    omz_step(&mut run, OmzEvent::Dir(false));
    match omz_step(&mut run, OmzEvent::Ran { ok: false, status: "exit status: 1".into() }) {
        OmzAction::Finish(r) => {
            assert!(!r.ok);
            assert_eq!(r.detail, "oh-my-zsh install failed (exit status: 1)");
        }
        _ => panic!("not finished"),
    }
    assert_eq!(msg(ensure_omz_stack(None).err().unwrap()), "HOME is not set");
}

fn ops_text(ops: &[InventoryOp]) -> Vec<String> {
    ops.iter()
        .map(|o| match o {
            InventoryOp::Rename { from, to } => format!("mv {from} {to}"),
            InventoryOp::CreateDir(d) => format!("mkdir {d}"),
        })
        .collect()
}

#[test]
fn moves_loose_tomls_out_of_hosts_plan() {
    let legacy = LegacyHosts::Dir(vec!["examples".into(), "mini.toml".into(), ".toml".into(), "notes.txt".into()]);
    let (dest, ops) = ensure_hosts_inventory("/r", "/home/u", false, &legacy);
    assert_eq!(dest, "/home/u/.rig-hosts");
    assert_eq!(ops_text(&ops), vec!["mkdir /home/u/.rig-hosts", "mv /r/hosts/mini.toml /home/u/.rig-hosts/mini.toml"]);
    let (_, ops) = ensure_hosts_inventory("/r", "/home/u", true, &legacy);
    assert!(ops.is_empty());
}

#[test]
fn moves_hosts_symlink_to_home_inventory_plan() {
    let (_, ops) = ensure_hosts_inventory("/r", "/home/u", false, &LegacyHosts::Symlink);
    assert_eq!(ops_text(&ops), vec!["mv /r/hosts /home/u/.rig-hosts", "mkdir /r/hosts"]);
    let (_, ops) = ensure_hosts_inventory("/r", "/home/u", false, &LegacyHosts::Missing);
    assert!(ops.is_empty());
}

#[test]
fn root_discovery() {
    let cwd = vec![("/a/b".to_string(), false), ("/a".to_string(), true), ("/".to_string(), true)];
    assert!(matches!(discover_root(None, &cwd, &Vec::new()), RootChoice::Use(ref p) if p == "/a"));
    assert!(matches!(discover_root(None, &Vec::new(), &Vec::new()), RootChoice::Embedded));
    assert!(matches!(discover_root(Some(("/x", true)), &cwd, &Vec::new()), RootChoice::Use(ref p) if p == "/x"));
    match discover_root(Some(("/x", false)), &cwd, &Vec::new()) {
        RootChoice::Refused(e) => assert_eq!(msg(e), "path does not look like a rig root: /x"),
        _ => panic!("accepted"),
    }
    assert!(embedded_refresh_needed(None, "1.0.0", true, true));
    assert!(!embedded_refresh_needed(Some("1.0.0\n"), "1.0.0", true, true));
    assert!(embedded_refresh_needed(Some("0.9.0\n"), "1.0.0", true, true));
    assert!(embedded_refresh_needed(Some("1.0.0"), "1.0.0", true, false));
}

fn bare_host() -> Host {
    Host {
        name: "mini".into(),
        role: "compute".into(),
        os: Some(OsKind::Linux),
        shell: Some(ShellKind::Bash),
        user: Some("u".into()),
        ssh: Vec::new(),
        vpn: None,
        lan: None,
        thunderbolt: None,
        packages: HostPackages::default(),
        features: HostFeatures::default(),
        schema_version: 1,
    }
}

#[test]
fn apply_refuses_without_yes() {
    let role = Role { description: "c".into(), packages: Vec::new(), features: RoleFeatures::default(), default_shell: None };
    match execute(&bare_host(), &role, "/bin/bash", "linux", false, false) {
        Err(e) => assert_eq!(msg(e), "refusing to modify the system without --yes (-y)"),
        Ok(_) => panic!("ran without yes"),
    }
    match execute(&bare_host(), &role, "/bin/bash", "linux", true, false) {
        Ok((_, a, _)) => assert!(matches!(a, ApplyAction::LinkShell { shell: ShellKind::Bash, product_rc: false })),
        Err(_) => panic!("refused"),
    }
}

#[test]
fn bad_addresses_are_refused() {
    assert!(validate_ipv4("10.0.0.1").is_ok());
    assert!(validate_ipv4("10.0.0.256").is_err());
    assert!(validate_ipv4("10.0.1").is_err());
    assert!(apply_thunderbolt("1.2.3", OsKind::Macos).is_err());
}

fn lines_of(out: &[rig::apply::run::ShownStep]) -> Vec<(String, String, String)> {
    out.iter().map(|s| (s.mark.to_string(), s.id.clone(), s.detail.clone())).collect()
}

fn t3(a: &str, b: &str, c: &str) -> (String, String, String) {
    (a.to_string(), b.to_string(), c.to_string())
}

#[test]
fn compute_apply_on_macos_turns_screen_sharing_on() {
    let mut host = bare_host();
    host.os = Some(OsKind::Macos);
    let features = RoleFeatures { screen_sharing: true, ..RoleFeatures::default() };
    let role = Role { description: "c".into(), packages: Vec::new(), features, default_shell: None };
    let (mut run, a, _) = match execute(&host, &role, "/bin/bash", "macos", true, false) {
        Ok(x) => x,
        Err(_) => panic!("refused"),
    };
    assert!(matches!(a, ApplyAction::LinkShell { shell: ShellKind::Bash, product_rc: false }));
    let rc = "/h/.bashrc".to_string();
    let link = LinkReport {
        config_dir: "/h/.config/rig".into(),
        written: vec!["/h/.config/rig/shell/common.sh".into(), rc.clone()],
        touched_rcs: vec!["/h/.bash_profile".into(), rc.clone()],
        sources: vec!["common←templates".into(), "rc←overlay".into()],
    };
    let (a, out) = apply_step(&mut run, ApplyEvent::ShellLinked(link));
    assert!(matches!(a, ApplyAction::LinkTmux));
    assert_eq!(
        lines_of(&out),
        vec![
            t3("ok", "link-shell", "→ /h/.config/rig"),
            t3("", "", "sources  common←templates, rc←overlay"),
            t3("", "", "snippet  /h/.bash_profile"),
            t3("", "", "snippet  /h/.bashrc"),
            t3("", "", "thin shell  common.sh; product rc optional"),
        ]
    );
    assert_eq!(
        run.state.managed_files,
        vec!["/h/.config/rig/shell/common.sh".to_string(), rc.clone(), "/h/.bash_profile".to_string()]
    );
    let tmux = TmuxReport { detail: "linked".into(), linked: Some(rc.clone()), extra: Vec::new() };
    let (a, _) = apply_step(&mut run, ApplyEvent::TmuxLinked(tmux));
    assert!(matches!(a, ApplyAction::WriteSshConfig));
    let (a, out) = apply_step(&mut run, ApplyEvent::SshConfig("/h/.ssh/config.d/rig.conf".into()));
    assert!(matches!(a, ApplyAction::RunFeature(FeatureKind::ScreenSharing)));
    assert_eq!(lines_of(&out)[1], t3("skip", "gui", "off in role"));
    let rep = StepReport { ok: true, detail: "vnc :5900 listening".into() };
    let (a, _) = apply_step(&mut run, ApplyEvent::Feature(rep, Vec::new()));
    assert!(matches!(a, ApplyAction::Finish));
    assert_eq!(run.state.step_detail("screen-sharing"), Some("vnc :5900 listening".to_string()));
    assert_eq!(run.state.step_detail("gui"), Some("skipped".to_string()));
    let mut files = run.state.managed_files.clone();
    files.sort();
    files.dedup();
    assert_eq!(files.len(), run.state.managed_files.len());
}
