use rig::apply::features::{pmset_custom_all_awake, pmset_custom_sources};
use rig::apply::inspect::pmset_keys;
use rig::apply::login_shell::{is_apple_stock_bash, plan_detail};
use rig::apply::packages::{restyle_apt_line, restyle_brew_line, BrewShow};
use rig::packages::extras_sorted;
use rig::schema::host::{set_user_line, user_write_needed, HostFeatures};
use rig::schema::identity_hit;
use rig::schema::{OsKind, RoleFeatures, ShellKind};
use rig::ui::{ellipsize, tilde_home};

const CUSTOM: &str = "\
Battery Power:
 sleep                1
 displaysleep         10
 disksleep            10
 powernap             1
AC Power:
 sleep                0
 displaysleep         0
 disksleep            0
 powernap             0
";

#[test]
fn custom_sources_splits_battery_and_ac() {
    let s = pmset_custom_sources(CUSTOM);
    assert_eq!(s.len(), 2);
    assert_eq!(s[0].0, "Battery");
    assert_eq!(s[1].0, "AC");
}

#[test]
fn custom_awake_false_if_battery_still_sleeps() {
    assert!(!pmset_custom_all_awake(CUSTOM));
}

#[test]
fn custom_awake_true_when_every_source_is_zero() {
    let t = "\
AC Power:
 sleep                0
 displaysleep         0
 disksleep            0
 powernap             0
";
    assert!(pmset_custom_all_awake(t));
}

#[test]
fn pmset_keys_picks_sleep_fields() {
    let t = "\
         standby              1
         sleep                0
         displaysleep         120
         disksleep            10
         powernap             1
";
    assert_eq!(pmset_keys(t), "sleep 0  display 120  disk 10  nap 1");
}

#[test]
fn apple_stock_bash_is_rejected() {
    assert!(is_apple_stock_bash("/bin/bash"));
    assert!(!is_apple_stock_bash("/opt/homebrew/bin/bash"));
}

#[test]
fn macos_bash_plan_mentions_homebrew() {
    let d = plan_detail(ShellKind::Bash, OsKind::Macos);
    assert!(d.contains("Homebrew"));
    assert!(d.contains("/bin/bash"));
}

#[test]
fn macos_zsh_plan_mentions_homebrew() {
    let d = plan_detail(ShellKind::Zsh, OsKind::Macos);
    assert!(d.contains("Homebrew"));
    assert!(d.contains("/bin/zsh"));
}

#[test]
fn restyle_using_and_install() {
    assert_eq!(restyle_brew_line("Using cmake"), BrewShow::Already);
    assert_eq!(
        restyle_brew_line("Installing llvm"),
        BrewShow::Progress("install  llvm".into())
    );
    assert_eq!(
        restyle_brew_line("==> Pouring llvm.bottle.tar.gz"),
        BrewShow::Skip
    );
    assert_eq!(
        restyle_brew_line("==> Fetching llvm"),
        BrewShow::Progress("Fetching llvm".into())
    );
    assert_eq!(
        restyle_brew_line("`brew bundle` complete! 38 Brewfile dependencies now installed."),
        BrewShow::Skip
    );
    assert_eq!(
        restyle_brew_line("Warning: Formulae dependency graph sorting found a circular dependency:"),
        BrewShow::Skip
    );
}

#[test]
fn restyle_apt_hides_noise() {
    assert_eq!(
        restyle_apt_line("git is already the newest version (1:2.0)."),
        BrewShow::Already
    );
    assert_eq!(restyle_apt_line("Reading package lists..."), BrewShow::Skip);
    assert_eq!(
        restyle_apt_line("E: Unable to locate package foo"),
        BrewShow::Line("E: Unable to locate package foo".into())
    );
}

#[test]
fn extras_ignore_recommended_and_sort() {
    let rec: Vec<String> = vec!["brew:git".to_string(), "cask:cursor".to_string()];
    let installed: Vec<String> = vec![
        "cask:discord".into(),
        "brew:git".into(),
        "brew:ripgrep".into(),
        "cask:cursor".into(),
    ];
    assert_eq!(
        extras_sorted(&installed, &rec),
        vec!["brew:ripgrep", "cask:discord"]
    );
}

#[test]
fn hosts_dir_is_home_dot_rig_hosts() {
    let home = "/home/you";
    let p = rig::paths::hosts_dir(home);
    let path = std::path::Path::new(&p);
    assert_eq!(path.file_name().unwrap(), ".rig-hosts");
    assert_eq!(path.parent().unwrap(), std::path::Path::new(home));
}

#[test]
fn user_write_skip_when_matches() {
    assert!(user_write_needed(Some("admin"), "admin").is_none());
}

#[test]
fn user_write_when_differs() {
    assert_eq!(
        user_write_needed(Some("tak"), "admin").as_deref(),
        Some("tak → admin")
    );
}

#[test]
fn user_write_when_omitted() {
    assert_eq!(
        user_write_needed(None, "admin").as_deref(),
        Some("write admin")
    );
}

#[test]
fn set_user_replaces_line() {
    let t = "name = \"x\"\nrole = \"compute\"\nuser = \"tak\"\n";
    assert_eq!(
        set_user_line(t, "admin"),
        "name = \"x\"\nrole = \"compute\"\nuser = \"admin\"\n"
    );
}

#[test]
fn set_user_inserts_after_role() {
    let t = "name = \"x\"\nrole = \"compute\"\nschema_version = 1\n";
    let out = set_user_line(t, "admin");
    assert!(out.contains("role = \"compute\"\nuser = \"admin\"\n"));
}

#[test]
fn identity_matches_bonjour_suffix() {
    let ids: Vec<String> = vec!["m4-mini-tak.local".into(), "m4-mini-tak".into()];
    assert!(identity_hit(&ids, "m4-mini-tak", "m4-mini-tak"));
    assert!(identity_hit(&ids, "M4-Mini-Tak", "other"));
    assert!(identity_hit(&ids, "nope", "m4-mini-tak"));
    assert!(!identity_hit(&ids, "m4-mba-neva", "m4-mba-neva"));
}

#[test]
fn host_features_overlay_only_set_keys() {
    let role = RoleFeatures {
        stay_awake: true,
        remote_login: true,
        ..RoleFeatures::default()
    };
    let host = HostFeatures {
        stay_awake: Some(false),
        ..HostFeatures::default()
    };
    let merged = role.with_host(&host);
    assert!(!merged.stay_awake);
    assert!(merged.remote_login);
}

#[test]
fn ellipsize_keeps_short() {
    assert_eq!(ellipsize("abc", 10), "abc");
}

#[test]
fn ellipsize_middle() {
    let s = ellipsize("abcdefghijklmnopqrstuvwxyz", 11);
    assert_eq!(s.chars().count(), 11);
    assert!(s.contains('…'));
    assert!(s.starts_with("abcde"));
    assert!(s.ends_with("wxyz"));
}

#[test]
fn tilde_is_prefix_only() {
    let home = "/Users/you";
    let p = format!("{home}/Library/foo");
    assert_eq!(tilde_home(&p, Some(home)), "~/Library/foo");
    assert_eq!(tilde_home("/other", Some(home)), "/other");
}
