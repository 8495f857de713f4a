use rig::apply::features::{StepReport, LOGIND_DESIRED, LOGIND_DROPIN_PATH};
use rig::apply::gui::{apply_gui, gui_step, GuiAction, GuiEvent};
use rig::apply::login_shell::{apply_login_shell, LoginShellAction, LoginShellEvent};
use rig::apply::undo::{clean_step, CleanCall, CleanEvent, CleanStep};
use rig::apply::system::{apply_stay_awake, stay_awake_step, FeatureAction, SysCall, SysResult};
use rig::packages::PackageSetContents;
use rig::schema::{OsKind, ShellKind};

fn report(a: LoginShellAction) -> StepReport {
    match a {
        LoginShellAction::Finish(r) => r,
        _ => panic!("the step went on"),
    }
}

fn finished(a: FeatureAction) -> StepReport {
    match a {
        FeatureAction::Finish(r) => r,
        FeatureAction::Call(_) => panic!("the step went on"),
    }
}

fn strings(v: &[&str]) -> Vec<String> {
    v.iter().map(|s| s.to_string()).collect()
}

#[test]
fn login_shell_missing_binary() {
    let r = report(apply_login_shell(ShellKind::Bash, OsKind::Macos, "", LoginShellEvent::Located(None)));
    assert!(!r.ok);
    assert_eq!(r.detail, "Homebrew bash not found (brew install bash)");
    let r = report(apply_login_shell(ShellKind::Zsh, OsKind::Linux, "", LoginShellEvent::Located(None)));
    assert_eq!(r.detail, "zsh not found on PATH");
}

#[test]
fn login_shell_refuses_apple_bash() {
    let a = apply_login_shell(ShellKind::Bash, OsKind::Macos, "", LoginShellEvent::Located(Some("/bin/bash".into())));
    let r = report(a);
    assert!(!r.ok);
    assert_eq!(r.detail, "refusing /bin/bash (macOS ships 3.2); install Homebrew bash");
}

#[test]
fn login_shell_walks_to_chsh() {
    let w = "/opt/homebrew/bin/bash";
    match apply_login_shell(ShellKind::Bash, OsKind::Macos, "", LoginShellEvent::Located(Some(w.into()))) {
        LoginShellAction::CompareCurrent(p) => assert_eq!(p, w),
        _ => panic!("expected a comparison"),
    }
    let r = report(apply_login_shell(ShellKind::Bash, OsKind::Macos, w, LoginShellEvent::CurrentCompared(true)));
    assert!(r.ok);
    assert_eq!(r.detail, "already /opt/homebrew/bin/bash");
    match apply_login_shell(ShellKind::Bash, OsKind::Macos, w, LoginShellEvent::CurrentCompared(false)) {
        LoginShellAction::CheckShellsFile(p) => assert_eq!(p, w),
        _ => panic!("expected the /etc/shells check"),
    }
    assert!(matches!(
        apply_login_shell(ShellKind::Bash, OsKind::Macos, w, LoginShellEvent::ShellsFileChecked(false)),
        LoginShellAction::RenewSudo
    ));
    match apply_login_shell(ShellKind::Bash, OsKind::Macos, w, LoginShellEvent::SudoRenewed(true)) {
        LoginShellAction::AppendShells(p) => assert_eq!(p, w),
        _ => panic!("expected the append"),
    }
    let r = report(apply_login_shell(ShellKind::Bash, OsKind::Macos, w, LoginShellEvent::SudoRenewed(false)));
    assert_eq!(r.detail, "sudo -v failed (needed to add shell to /etc/shells)");
    let r = report(apply_login_shell(ShellKind::Bash, OsKind::Macos, w, LoginShellEvent::ShellsAppended(false)));
    assert_eq!(r.detail, "could not add /opt/homebrew/bin/bash to /etc/shells");
    match apply_login_shell(ShellKind::Bash, OsKind::Macos, w, LoginShellEvent::ShellsFileChecked(true)) {
        LoginShellAction::ChangeShell(p) => assert_eq!(p, w),
        _ => panic!("expected chsh"),
    }
    let r = report(apply_login_shell(ShellKind::Bash, OsKind::Macos, w, LoginShellEvent::ShellChanged(true)));
    assert!(r.ok);
    assert_eq!(r.detail, "chsh → /opt/homebrew/bin/bash");
    let r = report(apply_login_shell(ShellKind::Bash, OsKind::Macos, w, LoginShellEvent::ShellChanged(false)));
    assert!(!r.ok);
    assert_eq!(r.detail, "chsh -s /opt/homebrew/bin/bash failed");
}

#[test]
fn stay_awake_macos_already_awake() {
    let (mut run, a) = apply_stay_awake(OsKind::Macos);
    match a {
        FeatureAction::Call(SysCall::RunOutput(p, args, strict)) => {
            assert_eq!(p, "pmset");
            assert_eq!(args, strings(&["-g", "custom"]));
            assert!(!strict);
        }
        _ => panic!("expected pmset -g custom"),
    }
    let custom = "Battery Power:\n sleep 0\n displaysleep 0\n disksleep 0\n powernap 0\nAC Power:\n sleep 0\n displaysleep 0\n disksleep 0\n powernap 0\n";
    let r = finished(stay_awake_step(&mut run, SysResult::Output(true, custom.into())));
    assert!(r.ok);
    assert_eq!(r.detail, "pmset -a already sleep=0 displaysleep=0 disksleep=0 powernap=0");
}

#[test]
fn stay_awake_macos_sets_pmset() {
    let (mut run, _) = apply_stay_awake(OsKind::Macos);
    let custom = "AC Power:\n sleep 10\n displaysleep 0\n disksleep 0\n";
    match stay_awake_step(&mut run, SysResult::Output(true, custom.into())) {
        FeatureAction::Call(SysCall::Sudo(args)) => assert_eq!(
            args,
            strings(&["pmset", "-a", "sleep", "0", "displaysleep", "0", "disksleep", "0", "powernap", "0"])
        ),
        _ => panic!("expected sudo pmset -a"),
    }
    let r = finished(stay_awake_step(&mut run, SysResult::Ran(false)));
    assert!(!r.ok);
    assert_eq!(r.detail, "pmset -a failed");
}

#[test]
fn stay_awake_linux_dropin() {
    let (mut run, a) = apply_stay_awake(OsKind::Linux);
    assert!(matches!(a, FeatureAction::Call(SysCall::IsDir(ref d)) if d == "/run/systemd/system"));
    match stay_awake_step(&mut run, SysResult::Ran(true)) {
        FeatureAction::Call(SysCall::ReadFile(p)) => assert_eq!(p, LOGIND_DROPIN_PATH),
        _ => panic!("expected the drop-in read"),
    }
    let r = finished(stay_awake_step(&mut run, SysResult::Text(Some(LOGIND_DESIRED.into()))));
    assert!(r.ok);
    assert_eq!(r.detail, format!("{LOGIND_DROPIN_PATH} already"));

    let (mut run, _) = apply_stay_awake(OsKind::Linux);
    let r = finished(stay_awake_step(&mut run, SysResult::Ran(false)));
    assert_eq!(r.detail, "no systemd — skip stay-awake");
}

#[test]
fn gui_skips_on_linux_and_counts_casks() {
    let (_, a) = apply_gui(OsKind::Linux);
    match a {
        GuiAction::Finish(r) => {
            assert!(r.ok);
            assert_eq!(r.detail, "skipped on linux (no brew casks)");
        }
        _ => panic!("linux has no casks"),
    }

    let (mut run, a) = apply_gui(OsKind::Macos);
    assert!(matches!(a, GuiAction::FindBrew));
    assert!(matches!(gui_step(&mut run, GuiEvent::BrewFound(true)), GuiAction::LoadSets));
    let sets = vec![PackageSetContents {
        brew: strings(&["git", "cask:iterm2", "cask:firefox", "cask:iterm2"]),
        apt: Vec::new(),
    }];
    assert!(matches!(gui_step(&mut run, GuiEvent::SetsLoaded(sets)), GuiAction::ListInstalledCasks));
    assert_eq!(run.casks, strings(&["firefox", "iterm2"]));
    match gui_step(&mut run, GuiEvent::InstalledCasks(strings(&["iterm2"]))) {
        GuiAction::Install(c) => assert_eq!(c, "firefox"),
        _ => panic!("firefox is not there yet"),
    }
    match gui_step(&mut run, GuiEvent::Installed(true)) {
        GuiAction::ShowAlready(c) => assert_eq!(c, "iterm2"),
        _ => panic!("iterm2 is there"),
    }
    match gui_step(&mut run, GuiEvent::Shown) {
        GuiAction::Finish(r) => {
            assert!(r.ok);
            assert_eq!(r.detail, "2 cask(s): 1 already, 1 installed");
        }
        _ => panic!("expected the report"),
    }
}

#[test]
fn gui_without_brew() {
    let (mut run, _) = apply_gui(OsKind::Macos);
    match gui_step(&mut run, GuiEvent::BrewFound(false)) {
        GuiAction::Finish(r) => {
            assert!(r.ok);
            assert_eq!(r.detail, "brew not found — skip GUI casks");
        }
        _ => panic!("expected the report"),
    }
}

#[test]
fn host_names_are_lower_cased() {
    assert_eq!(rig::schema::hostname_or_unknown(Some("MiNi.Local")), "mini.local");
    assert_eq!(rig::schema::hostname_or_unknown(None), "unknown");
    let h = rig::schema::current_hostname();
    assert_eq!(h, h.to_lowercase());
}

#[test]
fn state_file_lives_in_the_data_directory() {
    let p = rig::paths::state_path();
    assert!(p == ".rig-state.json" || p.ends_with("state.json"));
}

fn drive_clean(
    mut run: rig::apply::undo::UndoRun,
    mut step: rig::apply::undo::CleanStep,
    files: &[&str],
) -> rig::apply::clean::CleanReport {
    for _ in 0..100 {
        let call = match step {
            CleanStep::Finish(r) => return r,
            CleanStep::Call(c) => c,
        };
        let event = match call {
            CleanCall::Inspect(p) => {
                let there = files.contains(&p.as_str());
                CleanEvent::Info { exists: there, is_symlink: false, is_file: there, is_dir: false }
            }
            CleanCall::Read(_) => CleanEvent::Text(Ok(String::new())),
            CleanCall::LoadSets => CleanEvent::Sets(Ok(Vec::new())),
            CleanCall::Run { .. } => CleanEvent::Status(Ok((true, String::new()))),
            CleanCall::Write(..) | CleanCall::RemoveFile(_) | CleanCall::RemoveDir(_) => CleanEvent::Done(Ok(())),
        };
        step = clean_step(&mut run, event);
    }
    panic!("the clean run did not end");
}

#[test]
fn clean_without_state() {
    let (run, step) = rig::apply::undo::clean(None, None, None, "/d/state.json".into(), false, false, "linux");
    let r = drive_clean(run, step, &[]);
    assert_eq!(r.lines, vec!["no state — nothing to clean".to_string()]);
    assert!(r.errors.is_empty());
}

#[test]
fn clean_preview_lists_what_would_go() {
    let f = "/h/.config/rig/shell/common.sh";
    let mut st = rig::apply::state::RigState::new("mini", "workstation");
    st.note_file(f);
    let (run, step) =
        rig::apply::undo::clean(Some(st), Some("/h".into()), None, "/d/state.json".into(), false, false, "linux");
    let r = drive_clean(run, step, &[f]);
    assert_eq!(
        r.lines,
        vec!["would remove /h/.config/rig/shell/common.sh".to_string(), "would remove state /d/state.json".to_string()]
    );
    assert!(r.errors.is_empty());
}

#[test]
fn machine_ids_name_this_machine() {
    let h = rig::schema::current_hostname();
    let ids = rig::schema::machine_ids(Some("Mini-Local"));
    assert!(ids.contains(&h));
    assert!(ids.contains(&"mini-local".to_string()));
    assert!(ids.windows(2).all(|w| w[0] < w[1]));
}

#[test]
fn config_dir_is_a_path() {
    assert!(!rig::apply::link::config_dir().is_empty());
}
