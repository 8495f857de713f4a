use rig::apply::plan::{ApplyPlan, ApplyStep};
use rig::commands::apply::apply_preview;
use rig::commands::check::{check_self_name, check_targets, run as check_run, PathProbe};
use rig::commands::host::{col_w, detect, list};
use rig::commands::init::{init_target, example_path};
use rig::commands::roles::{parse_os_filter, print_role, role_names_to_show, yn};
use rig::commands::root::root_lines;
use rig::commands::ssh_config::{ssh_config_done, ssh_config_preview};
use rig::commands::status::{feature_summary, host_aliases, login_shell, machine_key, print_machine, root_kind, self_aliases};
use rig::commands::update::{detect_target, install_path, resolve_asset, update_needed, Release, ReleaseAsset};
use rig::error::RigError;
use rig::packages::PackageSetContents;
use rig::schema::host::{HostFeatures, HostPackages, LinkKind, SshPath};
use rig::schema::{Host, OsKind, Role, RoleFeatures, ShellKind};
use rig::ui::Style;

fn plain() -> Style {
    Style { color: false, tty: false, cols: 80, home: None }
}

fn kv(k: &str, v: &str) -> String {
    format!("  {:<4} {:<16} {}", "", k, v)
}

fn step(mark: &str, id: &str, detail: &str) -> String {
    format!("  {:<4} {:<16} {}", mark, id, detail)
}

fn host(name: &str, role: &str) -> Host {
    Host {
        name: name.into(),
        role: role.into(),
        os: None,
        shell: None,
        user: None,
        ssh: Vec::new(),
        vpn: None,
        lan: None,
        thunderbolt: None,
        packages: HostPackages::default(),
        features: HostFeatures::default(),
        schema_version: 1,
    }
}

fn msg(e: RigError) -> String {
    match e {
        RigError::Msg(m) => m,
        other => panic!("not a message: {other:?}"),
    }
}

#[test]
fn check_reports_each_path() {
    let mut a = host("a", "compute");
    a.ssh = vec![
        SshPath { alias: "a-lan".into(), ip: "10.0.0.2".into(), link: LinkKind::Lan },
        SshPath { alias: "a-ts".into(), ip: "100.0.0.2".into(), link: LinkKind::Vpn },
    ];
    let me = host("me", "workstation");
    let mut b = host("b", "compute");
    b.lan = Some("10.0.0.3".into());
    let hosts = vec![("a.toml".to_string(), a), ("me.toml".to_string(), me), ("b.toml".to_string(), b)];
    let name = check_self_name(None, "me.local");
    assert_eq!(name, "me");
    let targets = check_targets(&hosts, &name);
    assert_eq!(targets.len(), 2);
    assert_eq!(targets[1].peer, "b");
    assert_eq!(targets[1].paths[0].alias, "b-lan");
    let probes = vec![
        vec![PathProbe { tcp: true, ssh: true }, PathProbe { tcp: true, ssh: false }],
        vec![PathProbe { tcp: false, ssh: false }],
    ];
    let lines = check_run(&name, &targets, &probes, &plain());
    assert_eq!(
        lines,
        vec![
            "check".to_string(),
            kv("self", "me"),
            "  a".to_string(),
            step("ok", "lan", "a-lan  10.0.0.2  ssh ok"),
            step("fail", "vpn", "a-ts  100.0.0.2  tcp open  ssh no (try: rig host keys -y)"),
            "  b".to_string(),
            step("fail", "lan", "b-lan  10.0.0.3  no tcp/22"),
            String::new(),
            "  can ssh".to_string(),
            kv("ssh", "ssh a-lan  a  LAN"),
        ]
    );
}

#[test]
fn check_without_peers() {
    let lines = check_run("me", &Vec::new(), &Vec::new(), &plain());
    assert_eq!(lines.len(), 3);
    assert_eq!(lines[2], kv("", "no peers with [[ssh]] — add alias/ip/link in hosts/*.toml"));
}

#[test]
fn status_pieces() {
    assert_eq!(machine_key("OS"), "system");
    assert_eq!(machine_key("Host"), "model");
    assert_eq!(machine_key("GPU"), "info");
    let m = print_machine(Some("OS: macOS 15\nShell: zsh\nCPU:  \nme@box\n"), &plain());
    assert_eq!(m, vec!["  machine".to_string(), kv("system", "macOS 15"), kv("who", "me@box")]);
    assert!(print_machine(Some("\n  \n"), &plain()).is_empty());
    assert!(print_machine(None, &plain()).is_empty());
    assert_eq!(login_shell(Some("/bin/zsh"), Some("zsh 5.9 (arm64-apple-darwin24.0)\n")), "zsh 5.9");
    assert_eq!(login_shell(Some("/bin/zsh"), None), "zsh");
    assert_eq!(login_shell(None, Some("")), "?");
    assert_eq!(root_kind("/data/product/", "/data/product"), "product data (embedded unpack)");
    assert_eq!(root_kind("/src/rig", "/data/product"), "checkout / --root");
    let all = RoleFeatures { gui: true, cursor: true, remote_login: true, screen_sharing: true, tailscale: true, thunderbolt: true, stay_awake: true };
    assert_eq!(feature_summary(&all), "gui cursor remote screen tailscale thunderbolt awake");
    assert_eq!(feature_summary(&RoleFeatures::default()), "off gui cursor remote screen tailscale thunderbolt awake");
    let some = RoleFeatures { cursor: true, stay_awake: true, ..RoleFeatures::default() };
    assert_eq!(feature_summary(&some), "cursor awake  off gui remote screen tailscale thunderbolt");
    assert_eq!(host_aliases("Host a b\n  HostName 1.2.3.4\nHost c\n"), vec!["a", "b", "c"]);
    let mut me = host("me", "w");
    me.vpn = Some("100.1.1.1".into());
    let s = self_aliases(Some(&me));
    assert!(s.contains(&"me".to_string()) && s.contains(&"me-ts".to_string()));
}

#[test]
fn roles_arguments() {
    assert!(matches!(parse_os_filter(None), Ok(None)));
    assert!(matches!(parse_os_filter(Some("linux")), Ok(Some(OsKind::Linux))));
    match parse_os_filter(Some("bsd")) {
        Err(e) => assert_eq!(msg(e), "unknown --os `bsd` (want: macos, linux)"),
        Ok(_) => panic!("bsd accepted"),
    }
    let all = vec!["compute".to_string(), "workstation".to_string()];
    assert_eq!(role_names_to_show(Some("compute"), &all).ok().unwrap(), vec!["compute"]);
    assert_eq!(role_names_to_show(None, &all).ok().unwrap(), all);
    match role_names_to_show(Some("x"), &all) {
        Err(e) => assert_eq!(msg(e), "unknown role `x` (have: compute, workstation)"),
        Ok(_) => panic!("x accepted"),
    }
    assert_eq!(yn(true), "on");
}

#[test]
fn role_lines() {
    let role = Role {
        description: "compute node".into(),
        packages: vec!["base".into()],
        features: RoleFeatures { stay_awake: true, ..RoleFeatures::default() },
        default_shell: Some(ShellKind::Bash),
    };
    let sets = vec![PackageSetContents { brew: vec!["brew:git".into()], apt: Vec::new() }];
    let lines = print_role("compute", &role, &sets, None, &plain());
    assert_eq!(
        lines,
        vec![
            kv("role", "compute"),
            kv("", "compute node"),
            kv("shell", "bash"),
            kv("", "templates  shell/common + shell/bash"),
            "  features".to_string(),
            kv("", "gui=off  cursor=off  remote_login=off  tailscale=off  thunderbolt=off  stay_awake=on"),
            kv("", "stay awake (macOS pmset -a / Linux logind)"),
            kv("packages", "base"),
            "  brew  macos".to_string(),
            kv("", "set  base"),
            kv("", "brew:git"),
            "  apt  linux".to_string(),
            kv("", "set  base"),
            kv("", "empty or missing file"),
        ]
    );
    let only_linux = print_role("compute", &role, &sets, Some(OsKind::Linux), &plain());
    assert_eq!(only_linux.len(), 11);
}

#[test]
fn host_table_and_detect() {
    let names = vec!["ab".to_string(), "longer-name".to_string()];
    assert_eq!(col_w(4, &names), 11);
    assert_eq!(col_w(4, &Vec::new()), 4);
    let mut h = host("mini", "compute");
    h.ssh = vec![SshPath { alias: "mini-lan".into(), ip: "10.0.0.9".into(), link: LinkKind::Lan }];
    h.os = Some(OsKind::Linux);
    let hosts = vec![("mini.toml".to_string(), h.clone())];
    let l = list(&hosts, "/bin/bash", "macos", &plain());
    assert_eq!(l[1], "  name  role     os    shell net");
    assert_eq!(l[2], "  mini  compute  linux bash  lan:mini-lan");
    let d = detect("mini.local", "/home/u/.rig-hosts", None, "u", &plain());
    assert_eq!(d[3], kv("matched", "none — rig init or add ~/.rig-hosts/mini.toml"));
    assert_eq!(d[4], kv("expected", "/home/u/.rig-hosts/mini.toml"));
    let d2 = detect("mini.local", "/home/u/.rig-hosts", Some(&h), "u", &plain());
    assert_eq!(d2[3], kv("matched", "mini  compute"));
    assert_eq!(d2[4], kv("user", "write u"));
    assert_eq!(d2[5], kv("edit", "/home/u/.rig-hosts/mini.toml"));
}

#[test]
fn init_targets() {
    let roles = vec!["compute".to_string()];
    let (short, dest) = init_target(&roles, "compute", Some("Mini.local"), "/h/.rig-hosts").ok().unwrap();
    assert_eq!(short, "Mini");
    assert_eq!(dest, "/h/.rig-hosts/Mini.toml");
    match init_target(&roles, "gpu", None, "/h") {
        Err(e) => assert_eq!(msg(e), "unknown role `gpu` (have: compute)"),
        Ok(_) => panic!("gpu accepted"),
    }
    assert_eq!(example_path("/h/.rig-hosts", "compute"), "/h/.rig-hosts/examples/compute.toml");
}

#[test]
fn update_decisions() {
    assert_eq!(detect_target("macos", "aarch64").ok().unwrap(), "aarch64-apple-darwin");
    assert_eq!(detect_target("linux", "x86_64").ok().unwrap(), "x86_64-unknown-linux-gnu");
    assert_eq!(msg(detect_target("windows", "x86_64").err().unwrap()), "unsupported OS: windows");
    assert_eq!(msg(detect_target("linux", "riscv64").err().unwrap()), "unsupported arch: riscv64");
    assert_eq!(install_path(Some("/opt/bin"), None).ok().unwrap(), "/opt/bin/rig");
    assert_eq!(install_path(None, Some("/home/u")).ok().unwrap(), "/home/u/.local/bin/rig");
    assert_eq!(msg(install_path(None, None).err().unwrap()), "HOME is not set");
    let rel = Release {
        tag_name: Some("v1.2.0".into()),
        assets: vec![
            ReleaseAsset { name: Some("rig-x86_64-apple-darwin.tar.gz".into()), url: Some("https://x/1".into()) },
            ReleaseAsset { name: Some("rig-aarch64-apple-darwin.tar.gz".into()), url: Some("https://x/2".into()) },
        ],
    };
    let (tag, url) = resolve_asset("o/r", None, "aarch64-apple-darwin", &rel).ok().unwrap();
    assert_eq!((tag.as_str(), url.as_str()), ("v1.2.0", "https://x/2"));
    assert_eq!(
        msg(resolve_asset("o/r", Some("v9"), "x86_64-unknown-linux-gnu", &rel).err().unwrap()),
        "no asset rig-x86_64-unknown-linux-gnu.tar.gz on v1.2.0 — see https://github.com/o/r/releases"
    );
    let untagged = Release { tag_name: None, assets: Vec::new() };
    assert_eq!(msg(resolve_asset("o/r", None, "t", &untagged).err().unwrap()), "latest release has no tag_name");
    assert!(!update_needed(false, "v1.2.0", "1.2.0"));
    assert!(update_needed(false, "vv1.3.0", "1.2.0"));
    assert!(update_needed(true, "v1.2.0", "1.2.0"));
}

#[test]
fn apply_preview_marks_skips() {
    let p = ApplyPlan {
        host: "mini".into(),
        role: "compute".into(),
        os: "linux".into(),
        shell: "bash".into(),
        user: "u".into(),
        package_sets: vec!["base".into(), "cli".into()],
        steps: vec![
            ApplyStep { id: "packages".into(), detail: "2 sets".into(), skip: false },
            ApplyStep { id: "gui".into(), detail: "off in role".into(), skip: true },
        ],
    };
    let l = apply_preview("/r", &p, true, true, false, &plain());
    assert_eq!(l[0], "apply  preview");
    assert_eq!(l[4], kv("os", "linux  detected"));
    assert_eq!(l[7], kv("packages", "base + cli  skip"));
    assert_eq!(l[9], step("skip", "packages", "2 sets"));
    assert_eq!(l[10], step("skip", "gui", "off in role"));
    assert_eq!(l[12], kv("", "pass --yes (-y) to apply"));
}

#[test]
fn root_command_lines() {
    let l = root_lines("/r", OsKind::Macos, &plain());
    assert_eq!(l[0], "/r");
    assert_eq!(l[2], kv("os", "macos"));
    assert_eq!(l[6], kv("templates", "/r/templates/  (product — prefer overlay/)"));
}

#[test]
fn ssh_config_lines() {
    let conf = "# rig\nHost mini\n  HostName 10.0.0.2\nHost mini-tb\n  HostName 10.1.0.2\n";
    assert_eq!(
        ssh_config_preview(conf, &plain()),
        vec![
            "ssh-config  preview".to_string(),
            kv("write", "~/.ssh/config.d/rig.conf"),
            kv("aliases", "2"),
            kv("host", "mini"),
            kv("host", "mini-tb"),
            String::new(),
            kv("", "pass --yes (-y) to write"),
        ]
    );
    assert_eq!(
        ssh_config_done("/h/.ssh/config.d/rig.conf", "/h/.rig-hosts", &plain()),
        vec![
            "ssh-config".to_string(),
            kv("wrote", "/h/.ssh/config.d/rig.conf"),
            kv("include", "config.d/*.conf in ~/.ssh/config"),
            kv("source", "/h/.rig-hosts/  (edit [[ssh]] there, not the generated file)"),
        ]
    );
}
