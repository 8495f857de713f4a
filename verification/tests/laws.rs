use rig::apply::clean::strip_rig_block;
use rig::apply::keys::{distribute, distribute_step, DistributeAction, DistributeEvent};
use rig::apply::link::{ensure_snippet_text, managed_snippet};
use rig::apply::plan::resolve_package_sets;
use rig::apply::state::RigState;
use rig::commands::init::{init_body, rewrite_name, strip_os_assignment};
use rig::schema::host::{HostFeatures, HostPackages, LinkKind, SshPath};
use rig::schema::{Host, Role, RoleFeatures, ShellKind};
use rig::ui::ellipsize;

fn host(name: &str, role: &str) -> Host {
    Host {
        name: name.into(),
        role: role.into(),
        os: None,
        shell: None,
        user: None,
        ssh: Vec::new(),
        vpn: None,
        lan: None,
        thunderbolt: None,
        packages: HostPackages::default(),
        features: HostFeatures::default(),
        schema_version: 1,
    }
}

fn path(alias: &str, ip: &str, link: LinkKind) -> SshPath {
    SshPath { alias: alias.into(), ip: ip.into(), link }
}

#[test]
fn linking_twice_leaves_the_rc_as_linked_once() {
    let snip = managed_snippet("/opt/rig", "/home/u/.config/rig", ShellKind::Zsh, true);
    let e = "export PATH=/x:$PATH\nalias ll='ls -l'\n";
    let once = ensure_snippet_text(e, &snip);
    let twice = ensure_snippet_text(&once, &snip);
    assert_eq!(once, twice);
    assert!(once.starts_with(e));
    assert!(once.ends_with(&snip));
}

#[test]
fn linking_replaces_an_old_block_in_place() {
    let old = managed_snippet("/old/root", "/cfg", ShellKind::Bash, false);
    let e = format!("a=1\n{old}b=2\n");
    let new = managed_snippet("/new/root", "/cfg", ShellKind::Bash, false);
    let out = ensure_snippet_text(&e, &new);
    assert_eq!(out, format!("a=1\n{new}b=2\n"));
}

#[test]
fn unlinking_after_linking_gives_back_the_file() {
    let snip = managed_snippet("/opt/rig", "/cfg", ShellKind::Zsh, false);
    let e = "export A=1\n";
    let linked = ensure_snippet_text(e, &snip);
    assert_eq!(strip_rig_block(&linked).as_deref(), Some("export A=1\n\n"));
    let fresh = ensure_snippet_text("", &snip);
    assert_eq!(fresh, snip);
    assert_eq!(strip_rig_block(&fresh).as_deref(), Some(""));
}

#[test]
fn noting_a_step_then_reading_it() {
    let mut st = RigState::new("mini", "compute");
    st.note_step("shell", "zsh linked");
    st.note_step("omz", "present");
    st.note_step("shell", "zsh relinked");
    assert_eq!(st.step_detail("shell").as_deref(), Some("zsh relinked"));
    assert_eq!(st.step_detail("omz").as_deref(), Some("present"));
    assert_eq!(st.step_detail("tmux"), None);
    assert_eq!(st.steps.len(), 2);
}

#[test]
fn noting_a_file_twice_keeps_one() {
    let mut st = RigState::new("mini", "compute");
    st.note_file("/a");
    st.note_file("/b");
    st.note_file("/a");
    assert_eq!(st.managed_files, vec!["/a".to_string(), "/b".to_string()]);
}

#[test]
fn package_sets_add_then_remove() {
    let mut h = host("mini", "compute");
    h.packages.add = vec!["gui".into(), "base".into()];
    h.packages.remove = vec!["dev".into()];
    let role = Role {
        description: "c".into(),
        packages: vec!["base".into(), "dev".into(), "cli".into()],
        features: RoleFeatures::default(),
        default_shell: None,
    };
    assert_eq!(resolve_package_sets(&h, &role), vec!["base", "cli", "gui"]);
}

#[test]
fn each_peer_is_reported_once() {
    let mut a = host("a", "compute");
    a.ssh = vec![path("a-lan", "10.0.0.2", LinkKind::Lan)];
    let mut b = host("b", "compute");
    b.ssh = vec![path("b-ts", "100.1.1.1", LinkKind::Vpn)];
    let me = host("me", "workstation");
    let hosts = vec![a, me, b];
    let (mut run, mut act) = distribute(&hosts, "me", false, "/home/me/.ssh/id_ed25519.pub", true);
    let mut probes = 0;
    loop {
        match act {
            DistributeAction::Probe { host, paths } => {
                probes += 1;
                assert_ne!(hosts[host].name, "me");
                act = distribute_step(&mut run, &hosts, DistributeEvent::Probed(paths));
            }
            DistributeAction::Copy { .. } => panic!("no copy in a preview"),
            DistributeAction::Finish => break,
        }
    }
    assert_eq!(probes, 2);
    let r = &run.report;
    assert_eq!(r.ok.len() + r.skip.len() + r.fail.len(), 2);
}

#[test]
fn missing_key_is_reported() {
    let hosts = vec![host("a", "compute")];
    let (run, act) = distribute(&hosts, "me", true, "/k.pub", false);
    assert!(matches!(act, DistributeAction::Finish));
    assert_eq!(run.report.fail, vec!["no public key at /k.pub — run: ssh-keygen -t ed25519".to_string()]);
}

#[test]
fn shortened_values_fit_their_column() {
    for max in [0usize, 3, 7, 8, 9, 20] {
        let s = ellipsize("0123456789abcdefghij-0123456789", max);
        assert_eq!(s.chars().count(), max.min(31));
    }
    assert_eq!(ellipsize("abcdefghij", 8), "abc…ghij");
    assert_eq!(ellipsize("abcdefghij", 5), "abcde");
}

#[test]
fn new_host_files_pin_no_os() {
    let t = "name = \"x\"\nos = \"macos\"\n  os=\"linux\"\n# os = \"kept\"\nrole = \"compute\"\n";
    assert_eq!(
        strip_os_assignment(t),
        "name = \"x\"\n# os omitted → auto-detect at apply\n# os = \"kept\"\nrole = \"compute\"\n"
    );
    let body = init_body("compute", "mini", Some("os = \"macos\"\nrole = \"compute\"\n"));
    assert_eq!(
        body,
        "name = \"mini\"\n# os omitted → auto-detect at apply\nrole = \"compute\"\n"
    );
}

#[test]
fn rewrite_name_replaces_the_first_name_line() {
    assert_eq!(rewrite_name("role = \"c\"\n  name = \"a\"\nname = \"b\"", "m"), "role = \"c\"\nname = \"m\"\nname = \"b\"\n");
    assert_eq!(rewrite_name("role = \"c\"\n", "m"), "name = \"m\"\nrole = \"c\"\n");
}

#[test]
fn default_host_file_gets_the_name() {
    let body = init_body("workstation", "mini", None);
    assert!(body.contains("name = \"mini\"\n"));
    assert!(body.contains("role = \"workstation\"\n"));
    assert!(!body.contains("change-me\"\nrole"));
}

#[test]
fn writing_the_user_twice_changes_nothing() {
    let t = "name = \"mini\"\nrole = \"compute\"\n# user = \"old\"\n";
    let once = rig::schema::host::set_user_line(t, "tak");
    assert_eq!(once, "name = \"mini\"\nrole = \"compute\"\nuser = \"tak\"\n# user = \"old\"\n");
    assert_eq!(rig::schema::host::set_user_line(&once, "tak"), once);
}

#[test]
fn linking_the_shell_twice_keeps_the_rc() {
    let snip = rig::apply::link::managed_snippet("/r", "/h/.config/rig", rig::schema::ShellKind::Zsh, true);
    let rc = "export A=1\n";
    let once = rig::apply::link::ensure_snippet_text(rc, &snip);
    assert_eq!(rig::apply::link::ensure_snippet_text(&once, &snip), once);
}

#[test]
fn nothing_wanted_nothing_probed() {
    let none = rig::apply::inspect::LiveWanted::default();
    let n = rig::apply::inspect::live_needs(rig::schema::OsKind::Macos, none);
    assert!(!(n.pmset || n.systemd || n.logind || n.sshd || n.vnc || n.bridge || n.tb_plist || n.tailscale || n.cursor));
    let w = rig::apply::inspect::LiveWanted { screen_sharing: true, stay_awake: true, ..none };
    let mac = rig::apply::inspect::live_needs(rig::schema::OsKind::Macos, w);
    assert!(mac.vnc && mac.pmset && !mac.systemd && !mac.sshd && !mac.tailscale);
    let linux = rig::apply::inspect::live_needs(rig::schema::OsKind::Linux, w);
    assert!(!linux.vnc && !linux.pmset && linux.systemd && linux.logind);
}

#[test]
fn init_never_overwrites() {
    let e = rig::commands::init::check_new_host_file("/h/.rig-hosts/mini.toml", true);
    match e {
        Err(rig::error::RigError::Msg(m)) => assert_eq!(m, "already exists: /h/.rig-hosts/mini.toml"),
        _ => panic!("expected the refusal"),
    }
    assert!(rig::commands::init::check_new_host_file("/h/.rig-hosts/mini.toml", false).is_ok());
}

#[test]
fn inventory_is_dot_rig_hosts_in_home() {
    for home in ["/Users/tak", "/Users/tak/", "/home/u", "/"] {
        let p = rig::paths::hosts_dir(home);
        let path = std::path::Path::new(&p);
        assert_eq!(path.file_name().and_then(|s| s.to_str()), Some(".rig-hosts"));
        assert_eq!(path.parent(), Some(std::path::Path::new(home)));
    }
}
