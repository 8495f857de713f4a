//! The system calls the feature steps make, and the decisions between them:
//! each feature step is a small machine that asks app/ for one call at a
//! time and decides from its result what comes next.
use vstd::prelude::*;
use crate::apply::features::{
    bootstrap_needs_load, launch_note, remote_login_off_detail, remote_login_reported_on,
    screen_sharing_off_detail, spec_bootstrap_needs_load, spec_remote_login_off_detail,
    spec_remote_login_reported_on, spec_screen_sharing_off_detail, StepReport,
    SSHD_KEEPALIVE_DESIRED, SSHD_KEEPALIVE_PATH, is_ipv4, validate_ipv4, thunderbolt_plist,
    spec_thunderbolt_plist, TB_PLIST_LABEL, pmset_custom_all_awake, spec_all_awake,
    LOGIND_DESIRED, LOGIND_DROPIN_PATH, tailscaled_plist, spec_tailscaled_plist,
};
use crate::apply::inspect::{ifconfig_inet, inet_from};
use crate::error::{msg_text, RigError};
use crate::schema::OsKind;
use crate::text::{chars_of, concat2, concat3, join as join_text, join_strings, lines, owned, push_char, push_str, str_eq, string_of, trim, trim_chars, views};

verus! {

/// One system call a feature step asks for.
pub enum SysCall {
    /// `sudo -v`; answered with `Ran`.
    SudoTicket,
    /// `sudo <args>` with its output discarded; answered with `Ran`.
    Sudo(Vec<String>),
    /// `sudo <args>` whose outcome does not matter (even failing to start);
    /// answered with `Ran`.
    SudoIgnored(Vec<String>),
    /// `sudo <args>` on the terminal; answered with `Output(ok, exit status)`.
    SudoVisible(Vec<String>),
    /// `sudo <args>` with stdout and stderr captured (see `merged_output`);
    /// answered with `Output`.
    SudoOutput(Vec<String>),
    /// `sudo tee <path>` fed the contents; answered with `Output(ok, exit status)`.
    SudoWrite(String, String),
    /// The text of a file, if it can be read; answered with `Text`.
    ReadFile(String),
    /// The first `PATH` entry holding this program; answered with `Found`.
    Which(String),
    /// Whether a path is a regular file; answered with `Ran`.
    IsFile(String),
    /// Whether a path is a directory; answered with `Ran`.
    IsDir(String),
    /// Whether a process of this exact name runs (`pgrep -x`); answered with `Ran`.
    Pgrep(String),
    /// Whether something listens on 127.0.0.1:5900; answered with `Ran`.
    VncListening,
    /// Whether something listens on 127.0.0.1:22; answered with `Ran`.
    SshPortOpen,
    /// Whether an `sshd` process runs; answered with `Ran`.
    SshdListening,
    /// Wait this many milliseconds; answered with `Ran`.
    Sleep(u64),
    /// Run a program with output discarded; answered with `Ran`. When the
    /// flag is set, failing to start it is an error of the step; otherwise
    /// it counts as a failed run.
    Run(String, Vec<String>, bool),
    /// A program whose outcome does not matter (even failing to start);
    /// answered with `Ran`.
    RunIgnored(String, Vec<String>),
    /// Run a program and capture its stdout; answered with `Output`. The flag
    /// is as for `Run`.
    RunOutput(String, Vec<String>, bool),
}

/// The result of a system call.
pub enum SysResult {
    Ran(bool),
    Output(bool, String),
    Text(Option<String>),
    Found(Option<String>),
}

/// Whether the call succeeded (or found what it looked for).
pub open spec fn res_ok(r: SysResult) -> bool {
    match r {
        SysResult::Ran(b) => b,
        SysResult::Output(b, _) => b,
        SysResult::Text(t) => t is Some,
        SysResult::Found(p) => p is Some,
    }
}

/// The text a call returned (empty when it returned none).
pub open spec fn res_text(r: SysResult) -> Seq<char> {
    match r {
        SysResult::Output(_, t) => t@,
        SysResult::Text(Some(t)) => t@,
        SysResult::Found(Some(p)) => p@,
        _ => Seq::<char>::empty(),
    }
}

/// The text of a file read, if any.
pub open spec fn res_file(r: SysResult) -> Option<Seq<char>> {
    match r {
        SysResult::Text(Some(t)) => Some(t@),
        _ => None,
    }
}

/// The path found, if any.
pub open spec fn res_found(r: SysResult) -> Option<Seq<char>> {
    match r {
        SysResult::Found(Some(p)) => Some(p@),
        _ => None,
    }
}

pub fn result_ok(r: &SysResult) -> (b: bool)
    ensures
        b == res_ok(*r),
{
    match r {
        SysResult::Ran(b) => *b,
        SysResult::Output(b, _) => *b,
        SysResult::Text(t) => t.is_some(),
        SysResult::Found(p) => p.is_some(),
    }
}

pub fn result_text(r: &SysResult) -> (t: String)
    ensures
        t@ == res_text(*r),
{
    match r {
        SysResult::Output(_, t) => owned(t.as_str()),
        SysResult::Text(Some(t)) => owned(t.as_str()),
        SysResult::Found(Some(p)) => owned(p.as_str()),
        _ => String::new(),
    }
}

/// What a feature step does next.
pub enum FeatureAction {
    Call(SysCall),
    Finish(StepReport),
}

pub open spec fn finishes(a: FeatureAction, ok: bool, detail: Seq<char>) -> bool {
    a matches FeatureAction::Finish(r) && r.ok == ok && r.detail@ == detail
}

pub open spec fn calls_sudo(a: FeatureAction, args: Seq<Seq<char>>) -> bool {
    a matches FeatureAction::Call(SysCall::Sudo(v)) && views(v@) == args
}

pub open spec fn calls_sudo_output(a: FeatureAction, args: Seq<Seq<char>>) -> bool {
    a matches FeatureAction::Call(SysCall::SudoOutput(v)) && views(v@) == args
}

/// `sudo` output as one text: stdout, then stderr after a line feed when both
/// are there.
pub open spec fn spec_merged_output(stdout: Seq<char>, stderr: Seq<char>) -> Seq<char> {
    if stderr.len() == 0 {
        stdout
    } else if stdout.len() == 0 {
        stderr
    } else {
        stdout + "\n"@ + stderr
    }
}

pub fn merged_output(stdout: &str, stderr: &str) -> (r: String)
    ensures
        r@ == spec_merged_output(stdout@, stderr@),
{
    proof {
        reveal_strlit("\n");
    }
    let mut text = owned(stdout);
    if !stderr.is_empty() {
        if !stdout.is_empty() {
            push_char(&mut text, '\n');
            assert(text@ =~= stdout@ + "\n"@);
        }
        push_str(&mut text, stderr);
        assert(stdout@.len() == 0 ==> text@ =~= stderr@);
    }
    text
}

/// Owned copies of some words.
pub fn words_list(w: &[&str]) -> (r: Vec<String>)
    ensures
        views(r@) == w@.map_values(|s: &str| s@),
{
    let mut r: Vec<String> = Vec::new();
    let mut i: usize = 0;
    while i < w.len()
        invariant
            i <= w.len(),
            views(r@) == w@.subrange(0, i as int).map_values(|s: &str| s@),
        decreases w.len() - i,
    {
        let ghost before = views(r@);
        r.push(owned(w[i]));
        assert(views(r@) =~= before.push(w@[i as int]@));
        assert(w@.subrange(0, i + 1).map_values(|s: &str| s@) =~= w@.subrange(0, i as int).map_values(
            |s: &str| s@,
        ).push(w@[i as int]@));
        i = i + 1;
    }
    assert(w@.subrange(0, w.len() as int) =~= w@);
    r
}

/// A `sudo` call with discarded output.
pub fn sudo_call(w: &[&str]) -> (a: FeatureAction)
    ensures
        calls_sudo(a, w@.map_values(|s: &str| s@)),
{
    FeatureAction::Call(SysCall::Sudo(words_list(w)))
}

pub open spec fn calls_sudo_ignored(a: FeatureAction, args: Seq<Seq<char>>) -> bool {
    a matches FeatureAction::Call(SysCall::SudoIgnored(v)) && views(v@) == args
}

/// A `sudo` call whose outcome does not matter.
pub fn sudo_ignored_call(w: &[&str]) -> (a: FeatureAction)
    ensures
        calls_sudo_ignored(a, w@.map_values(|s: &str| s@)),
{
    FeatureAction::Call(SysCall::SudoIgnored(words_list(w)))
}

/// A `sudo` call with captured output.
pub fn sudo_output_call(w: &[&str]) -> (a: FeatureAction)
    ensures
        calls_sudo_output(a, w@.map_values(|s: &str| s@)),
{
    FeatureAction::Call(SysCall::SudoOutput(words_list(w)))
}

// ---------------------------------------------------------------------------
// Starting a system LaunchDaemon (screen sharing, sshd)
// ---------------------------------------------------------------------------

pub enum BootPhase {
    Enable,
    Bootstrap,
    Load,
    Kickstart,
    Done,
}

/// `launchctl enable`, `bootstrap` (and `load -w` when that fails for another
/// reason than the service being there), then `kickstart -k`; each failure
/// leaves a note.
pub struct LaunchBoot {
    pub service: String,
    pub plist: String,
    pub phase: BootPhase,
    pub notes: Vec<String>,
}

pub open spec fn boot_call(b: LaunchBoot, a: FeatureAction) -> bool {
    match b.phase {
        BootPhase::Enable => calls_sudo_output(a, seq!["launchctl"@, "enable"@, b.service@]),
        BootPhase::Bootstrap => calls_sudo_output(
            a,
            seq!["launchctl"@, "bootstrap"@, "system"@, b.plist@],
        ),
        BootPhase::Load => calls_sudo_output(a, seq!["launchctl"@, "load"@, "-w"@, b.plist@]),
        BootPhase::Kickstart => calls_sudo_output(a, seq!["launchctl"@, "kickstart"@, "-k"@, b.service@]),
        BootPhase::Done => true,
    }
}

fn boot_action(b: &LaunchBoot) -> (a: FeatureAction)
    ensures
        boot_call(*b, a),
{
    match b.phase {
        BootPhase::Enable => {
            let w = ["launchctl", "enable", b.service.as_str()];
            assert(w@.map_values(|s: &str| s@) =~= seq!["launchctl"@, "enable"@, b.service@]);
            sudo_output_call(&w)
        },
        BootPhase::Bootstrap => {
            let w = ["launchctl", "bootstrap", "system", b.plist.as_str()];
            assert(w@.map_values(|s: &str| s@) =~= seq!["launchctl"@, "bootstrap"@, "system"@, b.plist@]);
            sudo_output_call(&w)
        },
        BootPhase::Load => {
            let w = ["launchctl", "load", "-w", b.plist.as_str()];
            assert(w@.map_values(|s: &str| s@) =~= seq!["launchctl"@, "load"@, "-w"@, b.plist@]);
            sudo_output_call(&w)
        },
        BootPhase::Kickstart => {
            let w = ["launchctl", "kickstart", "-k", b.service.as_str()];
            assert(w@.map_values(|s: &str| s@) =~= seq!["launchctl"@, "kickstart"@, "-k"@, b.service@]);
            sudo_output_call(&w)
        },
        BootPhase::Done => FeatureAction::Finish(StepReport { ok: true, detail: String::new() }),
    }
}

/// Starts a LaunchDaemon: its first call.
pub fn boot_start(service: &str, plist: &str) -> (r: (LaunchBoot, FeatureAction))
    ensures
        r.0.service@ == service@,
        r.0.plist@ == plist@,
        r.0.phase is Enable,
        r.0.notes@.len() == 0,
        boot_call(r.0, r.1),
{
    let b = LaunchBoot {
        service: owned(service),
        plist: owned(plist),
        phase: BootPhase::Enable,
        notes: Vec::new(),
    };
    let a = boot_action(&b);
    (b, a)
}

/// After a `launchctl` call answered `ok` with `out`: the note it leaves, if
/// any, and the next call (none once `kickstart` ran).
pub fn boot_step(b: &mut LaunchBoot, ok: bool, out: &str) -> (a: Option<FeatureAction>)
    requires
        !(old(b).phase is Done),
    ensures
        final(b).service == old(b).service,
        final(b).plist == old(b).plist,
        ({
            let n0 = views(old(b).notes@);
            let n1 = views(final(b).notes@);
            match old(b).phase {
                BootPhase::Enable => final(b).phase is Bootstrap && n1 == (if ok {
                    n0
                } else {
                    n0.push("enable: "@ + trim(out@))
                }),
                BootPhase::Bootstrap => if spec_bootstrap_needs_load(ok, out@) {
                    final(b).phase is Load && n1 == n0.push("bootstrap: "@ + trim(out@))
                } else {
                    final(b).phase is Kickstart && n1 == n0
                },
                BootPhase::Load => final(b).phase is Kickstart && n1 == (if ok {
                    n0
                } else {
                    n0.push("load -w: "@ + trim(out@))
                }),
                _ => final(b).phase is Done && n1 == (if ok {
                    n0
                } else {
                    n0.push("kickstart: "@ + trim(out@))
                }),
            }
        }),
        final(b).phase is Done <==> a is None,
        a matches Some(x) ==> boot_call(*final(b), x),
{
    let ghost n0 = views(b.notes@);
    proof {
        reveal_strlit("enable");
        reveal_strlit("bootstrap");
        reveal_strlit("load -w");
        reveal_strlit("kickstart");
        reveal_strlit(": ");
        reveal_strlit("enable: ");
        reveal_strlit("bootstrap: ");
        reveal_strlit("load -w: ");
        reveal_strlit("kickstart: ");
        assert("enable"@ + ": "@ =~= "enable: "@);
        assert("bootstrap"@ + ": "@ =~= "bootstrap: "@);
        assert("load -w"@ + ": "@ =~= "load -w: "@);
        assert("kickstart"@ + ": "@ =~= "kickstart: "@);
    }
    match b.phase {
        BootPhase::Enable => {
            if !ok {
                b.notes.push(launch_note("enable", out));
                assert(views(b.notes@) =~= n0.push("enable"@ + ": "@ + trim(out@)));
            }
            b.phase = BootPhase::Bootstrap;
        },
        BootPhase::Bootstrap => {
            if bootstrap_needs_load(ok, out) {
                b.notes.push(launch_note("bootstrap", out));
                assert(views(b.notes@) =~= n0.push("bootstrap"@ + ": "@ + trim(out@)));
                b.phase = BootPhase::Load;
            } else {
                b.phase = BootPhase::Kickstart;
            }
        },
        BootPhase::Load => {
            if !ok {
                b.notes.push(launch_note("load -w", out));
                assert(views(b.notes@) =~= n0.push("load -w"@ + ": "@ + trim(out@)));
            }
            b.phase = BootPhase::Kickstart;
        },
        _ => {
            if !ok {
                b.notes.push(launch_note("kickstart", out));
                assert(views(b.notes@) =~= n0.push("kickstart"@ + ": "@ + trim(out@)));
            }
            b.phase = BootPhase::Done;
        },
    }
    match b.phase {
        BootPhase::Done => None,
        _ => Some(boot_action(b)),
    }
}

/// The notes of a LaunchDaemon start, joined.
pub fn boot_notes(b: &LaunchBoot) -> (r: String)
    ensures
        r@ == join_text(views(b.notes@), "; "@),
{
    join_strings(b.notes.as_slice(), "; ")
}

// ---------------------------------------------------------------------------
// Screen Sharing
// ---------------------------------------------------------------------------

pub const SCREEN_SHARING_PLIST: &'static str = "/System/Library/LaunchDaemons/com.apple.screensharing.plist";

pub const SCREEN_SHARING_SERVICE: &'static str = "system/com.apple.screensharing";

pub enum SharingPhase {
    Ticket,
    CheckOn,
    Boot,
    Wait,
    Recheck,
    Over,
}

/// The Screen Sharing step in progress.
pub struct SharingRun {
    pub phase: SharingPhase,
    pub boot: LaunchBoot,
}

pub open spec fn sudo_failed_text() -> Seq<char> {
    "sudo -v failed (password not accepted or cancelled)"@
}

/// Starts enabling macOS Screen Sharing (VNC on :5900); Linux has nothing to do.
pub fn apply_screen_sharing(os: OsKind) -> (r: (SharingRun, FeatureAction))
    ensures
        os == OsKind::Linux ==> finishes(r.1, true, "skipped on linux (macOS only)"@) && r.0.phase is Over,
        os == OsKind::Macos ==> r.1 == FeatureAction::Call(SysCall::SudoTicket) && r.0.phase is Ticket,
{
    let (boot, _) = boot_start(SCREEN_SHARING_SERVICE, SCREEN_SHARING_PLIST);
    match os {
        OsKind::Linux => (
            SharingRun { phase: SharingPhase::Over, boot },
            FeatureAction::Finish(StepReport { ok: true, detail: owned("skipped on linux (macOS only)") }),
        ),
        OsKind::Macos => (SharingRun { phase: SharingPhase::Ticket, boot }, FeatureAction::Call(SysCall::SudoTicket)),
    }
}

/// The next call of the Screen Sharing step after `res`: the sudo ticket,
/// whether VNC already listens, the LaunchDaemon start, half a second, and a
/// second look.
pub fn screen_sharing_step(run: &mut SharingRun, res: SysResult) -> (a: FeatureAction)
    requires
        !(old(run).phase is Over),
        old(run).phase is Boot ==> !(old(run).boot.phase is Done),
    ensures
        !(final(run).phase is Over) ==> a is Call,
        final(run).phase is Boot ==> !(final(run).boot.phase is Done),
        match old(run).phase {
            SharingPhase::Ticket => if res_ok(res) {
                a == FeatureAction::Call(SysCall::VncListening) && final(run).phase is CheckOn
            } else {
                finishes(a, false, sudo_failed_text()) && final(run).phase is Over
            },
            SharingPhase::CheckOn => if res_ok(res) {
                finishes(a, true, "already On"@) && final(run).phase is Over
            } else {
                final(run).phase is Boot && final(run).boot.service@ == SCREEN_SHARING_SERVICE@
                    && final(run).boot.plist@ == SCREEN_SHARING_PLIST@ && final(run).boot.phase is Enable
                    && final(run).boot.notes@.len() == 0 && boot_call(final(run).boot, a)
            },
            SharingPhase::Boot => if final(run).boot.phase is Done {
                a == FeatureAction::Call(SysCall::Sleep(500)) && final(run).phase is Wait
            } else {
                final(run).phase is Boot && boot_call(final(run).boot, a)
            },
            SharingPhase::Wait => a == FeatureAction::Call(SysCall::VncListening) && final(run).phase is Recheck,
            _ => final(run).phase is Over && if res_ok(res) {
                finishes(a, true, "launchctl bootstrap com.apple.screensharing"@)
            } else {
                finishes(a, false, spec_screen_sharing_off_detail(join_text(views(old(run).boot.notes@), "; "@)))
            },
        },
{
    match run.phase {
        SharingPhase::Ticket => {
            if result_ok(&res) {
                run.phase = SharingPhase::CheckOn;
                FeatureAction::Call(SysCall::VncListening)
            } else {
                run.phase = SharingPhase::Over;
                FeatureAction::Finish(StepReport {
                    ok: false,
                    detail: owned("sudo -v failed (password not accepted or cancelled)"),
                })
            }
        },
        SharingPhase::CheckOn => {
            if result_ok(&res) {
                run.phase = SharingPhase::Over;
                FeatureAction::Finish(StepReport { ok: true, detail: owned("already On") })
            } else {
                let (boot, a) = boot_start(SCREEN_SHARING_SERVICE, SCREEN_SHARING_PLIST);
                run.boot = boot;
                run.phase = SharingPhase::Boot;
                a
            }
        },
        SharingPhase::Boot => {
            let ok = result_ok(&res);
            let out = result_text(&res);
            match boot_step(&mut run.boot, ok, out.as_str()) {
                Some(a) => a,
                None => {
                    run.phase = SharingPhase::Wait;
                    FeatureAction::Call(SysCall::Sleep(500))
                },
            }
        },
        SharingPhase::Wait => {
            run.phase = SharingPhase::Recheck;
            FeatureAction::Call(SysCall::VncListening)
        },
        _ => {
            run.phase = SharingPhase::Over;
            if result_ok(&res) {
                FeatureAction::Finish(StepReport {
                    ok: true,
                    detail: owned("launchctl bootstrap com.apple.screensharing"),
                })
            } else {
                let launch = boot_notes(&run.boot);
                FeatureAction::Finish(StepReport { ok: false, detail: screen_sharing_off_detail(launch.as_str()) })
            }
        },
    }
}

// ---------------------------------------------------------------------------
// Remote login (sshd) and the keepalive drop-in
// ---------------------------------------------------------------------------

pub const SSH_PLIST: &'static str = "/System/Library/LaunchDaemons/ssh.plist";

pub const SSH_SERVICE: &'static str = "system/com.openssh.sshd";

pub enum RemotePhase {
    Ticket,
    /// macOS: is it on already (port, then `systemsetup -getremotelogin`)?
    PortBefore,
    AskBefore,
    /// macOS: `systemsetup -f -setremotelogin on`.
    SetRemote,
    PortAfterSet,
    AskAfterSet,
    /// macOS: starting sshd's LaunchDaemon, then a second look.
    Boot,
    Wait,
    PortAfterBoot,
    AskAfterBoot,
    /// Linux: sshd listening, the `ssh` / `sshd` units, a bare `sshd`.
    Listening,
    UnitSsh,
    UnitSshd,
    WhichSshd,
    SbinSshd,
    StartSshd,
    ListeningAfterStart,
    /// The keepalive drop-in, once remote login is on.
    KeepDir,
    KeepRead,
    KeepWrite,
    KeepReload(usize),
    Over,
}

/// The remote-login step in progress.
pub struct RemoteRun {
    pub os: OsKind,
    pub phase: RemotePhase,
    pub boot: LaunchBoot,
    /// What `systemsetup -setremotelogin` printed.
    pub set_out: String,
    /// The exit status of a bare `sshd` start.
    pub start_status: String,
    /// The detail of the report once remote login is on.
    pub detail: String,
}

pub open spec fn keep_reload_args(k: int) -> Seq<Seq<char>> {
    if k == 0 {
        seq!["launchctl"@, "kickstart"@, "-k"@, "system/com.openssh.sshd"@]
    } else if k == 1 {
        seq!["systemctl"@, "reload"@, "ssh"@]
    } else if k == 2 {
        seq!["systemctl"@, "reload"@, "sshd"@]
    } else {
        seq!["service"@, "ssh"@, "reload"@]
    }
}

fn keep_reload_call(k: usize) -> (a: FeatureAction)
    ensures
        calls_sudo_ignored(a, keep_reload_args(k as int)),
{
    if k == 0 {
        let w = ["launchctl", "kickstart", "-k", "system/com.openssh.sshd"];
        assert(w@.map_values(|s: &str| s@) =~= keep_reload_args(0));
        sudo_ignored_call(&w)
    } else if k == 1 {
        let w = ["systemctl", "reload", "ssh"];
        assert(w@.map_values(|s: &str| s@) =~= keep_reload_args(1));
        sudo_ignored_call(&w)
    } else if k == 2 {
        let w = ["systemctl", "reload", "sshd"];
        assert(w@.map_values(|s: &str| s@) =~= keep_reload_args(2));
        sudo_ignored_call(&w)
    } else {
        let w = ["service", "ssh", "reload"];
        assert(w@.map_values(|s: &str| s@) =~= keep_reload_args(k as int));
        sudo_ignored_call(&w)
    }
}

pub open spec fn get_remote_login_args() -> Seq<Seq<char>> {
    seq!["/usr/sbin/systemsetup"@, "-getremotelogin"@]
}

fn get_remote_login_call() -> (a: FeatureAction)
    ensures
        calls_sudo_output(a, get_remote_login_args()),
{
    let w = ["/usr/sbin/systemsetup", "-getremotelogin"];
    assert(w@.map_values(|s: &str| s@) =~= get_remote_login_args());
    sudo_output_call(&w)
}

pub open spec fn unit_args(unit: Seq<char>) -> Seq<Seq<char>> {
    seq!["systemctl"@, "enable"@, "--now"@, unit]
}

fn unit_call(unit: &str) -> (a: FeatureAction)
    ensures
        calls_sudo(a, unit_args(unit@)),
{
    let w = ["systemctl", "enable", "--now", unit];
    assert(w@.map_values(|s: &str| s@) =~= unit_args(unit@));
    sudo_call(&w)
}

/// Remote login is on with `detail`: the keepalive drop-in comes next.
pub open spec fn goes_to_keepalive(run: RemoteRun, a: FeatureAction, detail: Seq<char>) -> bool {
    &&& run.phase is KeepDir
    &&& run.detail@ == detail
    &&& a matches FeatureAction::Call(SysCall::IsDir(d)) && d@ == "/etc/ssh/sshd_config.d"@
}

fn to_keepalive(run: &mut RemoteRun, detail: &str) -> (a: FeatureAction)
    ensures
        goes_to_keepalive(*final(run), a, detail@),
        final(run).os == old(run).os,
        final(run).boot == old(run).boot,
        final(run).set_out == old(run).set_out,
        final(run).start_status == old(run).start_status,
{
    run.detail = owned(detail);
    run.phase = RemotePhase::KeepDir;
    FeatureAction::Call(SysCall::IsDir(owned("/etc/ssh/sshd_config.d")))
}

/// Starts enabling SSH remote login: the sudo ticket first.
pub fn apply_remote_login(os: OsKind) -> (r: (RemoteRun, FeatureAction))
    ensures
        r.0.os == os,
        r.0.phase is Ticket,
        r.1 == FeatureAction::Call(SysCall::SudoTicket),
{
    let (boot, _) = boot_start(SSH_SERVICE, SSH_PLIST);
    let run = RemoteRun {
        os,
        phase: RemotePhase::Ticket,
        boot,
        set_out: String::new(),
        start_status: String::new(),
        detail: String::new(),
    };
    (run, FeatureAction::Call(SysCall::SudoTicket))
}

/// The next call of the remote-login step after `res`. On macOS: already on
/// (port 22, or `systemsetup` says so), else `systemsetup -f -setremotelogin
/// on`, else sshd's LaunchDaemon. On Linux: sshd listening, else the `ssh` or
/// `sshd` unit, else a bare `sshd`. Once on, the keepalive drop-in is written
/// when `/etc/ssh/sshd_config.d` exists and holds another text.
pub fn remote_login_step(run: &mut RemoteRun, res: SysResult) -> (a: FeatureAction)
    requires
        !(old(run).phase is Over),
        old(run).phase is Boot ==> !(old(run).boot.phase is Done),
    ensures
        final(run).os == old(run).os,
        final(run).phase is Boot ==> !(final(run).boot.phase is Done),
        !(final(run).phase is Over) ==> a is Call,
        ({
            let ok = res_ok(res);
            let text = res_text(res);
            let f = *final(run);
            let o = *old(run);
            match o.phase {
                RemotePhase::Ticket => if !ok {
                    finishes(a, false, sudo_failed_text()) && f.phase is Over
                } else if o.os == OsKind::Macos {
                    a == FeatureAction::Call(SysCall::SshPortOpen) && f.phase is PortBefore
                } else {
                    a == FeatureAction::Call(SysCall::SshdListening) && f.phase is Listening
                },
                RemotePhase::PortBefore => if ok {
                    goes_to_keepalive(f, a, "already On"@)
                } else {
                    calls_sudo_output(a, get_remote_login_args()) && f.phase is AskBefore
                },
                RemotePhase::AskBefore => if spec_remote_login_reported_on(ok, text) {
                    goes_to_keepalive(f, a, "already On"@)
                } else {
                    calls_sudo_output(
                        a,
                        seq!["/usr/sbin/systemsetup"@, "-f"@, "-setremotelogin"@, "on"@],
                    ) && f.phase is SetRemote
                },
                RemotePhase::SetRemote => f.set_out@ == text && if ok {
                    a == FeatureAction::Call(SysCall::SshPortOpen) && f.phase is PortAfterSet
                } else {
                    f.phase is Boot && f.boot.service@ == SSH_SERVICE@ && f.boot.plist@ == SSH_PLIST@
                        && f.boot.phase is Enable && f.boot.notes@.len() == 0 && boot_call(f.boot, a)
                },
                RemotePhase::PortAfterSet => if ok {
                    goes_to_keepalive(f, a, "systemsetup -f -setremotelogin on"@)
                } else {
                    calls_sudo_output(a, get_remote_login_args()) && f.phase is AskAfterSet
                },
                RemotePhase::AskAfterSet => if spec_remote_login_reported_on(ok, text) {
                    goes_to_keepalive(f, a, "systemsetup -f -setremotelogin on"@)
                } else {
                    f.phase is Boot && f.boot.service@ == SSH_SERVICE@ && f.boot.plist@ == SSH_PLIST@
                        && f.boot.phase is Enable && f.boot.notes@.len() == 0 && boot_call(f.boot, a)
                },
                RemotePhase::Boot => if f.boot.phase is Done {
                    a == FeatureAction::Call(SysCall::Sleep(500)) && f.phase is Wait
                } else {
                    f.phase is Boot && boot_call(f.boot, a)
                },
                RemotePhase::Wait => a == FeatureAction::Call(SysCall::SshPortOpen) && f.phase is PortAfterBoot,
                RemotePhase::PortAfterBoot => if ok {
                    goes_to_keepalive(
                        f,
                        a,
                        "launchctl bootstrap com.openssh.sshd (systemsetup needs Full Disk Access)"@,
                    )
                } else {
                    calls_sudo_output(a, get_remote_login_args()) && f.phase is AskAfterBoot
                },
                RemotePhase::AskAfterBoot => if spec_remote_login_reported_on(ok, text) {
                    goes_to_keepalive(
                        f,
                        a,
                        "launchctl bootstrap com.openssh.sshd (systemsetup needs Full Disk Access)"@,
                    )
                } else {
                    f.phase is Over && finishes(
                        a,
                        false,
                        spec_remote_login_off_detail(o.set_out@, join_text(views(o.boot.notes@), "; "@)),
                    )
                },
                RemotePhase::Listening => if ok {
                    goes_to_keepalive(f, a, "sshd already listening"@)
                } else {
                    calls_sudo(a, unit_args("ssh"@)) && f.phase is UnitSsh
                },
                RemotePhase::UnitSsh => if ok {
                    goes_to_keepalive(f, a, "systemctl enable --now ssh"@)
                } else {
                    calls_sudo(a, unit_args("sshd"@)) && f.phase is UnitSshd
                },
                RemotePhase::UnitSshd => if ok {
                    goes_to_keepalive(f, a, "systemctl enable --now sshd"@)
                } else {
                    (a matches FeatureAction::Call(SysCall::Which(b)) && b@ == "sshd"@) && f.phase is WhichSshd
                },
                RemotePhase::WhichSshd => match res_found(res) {
                    Some(p) => (a matches FeatureAction::Call(SysCall::SudoVisible(v)) && views(v@) == seq![p])
                        && f.phase is StartSshd,
                    None => (a matches FeatureAction::Call(SysCall::IsFile(q)) && q@ == "/usr/sbin/sshd"@)
                        && f.phase is SbinSshd,
                },
                RemotePhase::SbinSshd => if ok {
                    (a matches FeatureAction::Call(SysCall::SudoVisible(v)) && views(v@) == seq![
                        "/usr/sbin/sshd"@,
                    ]) && f.phase is StartSshd
                } else {
                    finishes(a, false, "openssh-server / sshd not available"@) && f.phase is Over
                },
                RemotePhase::StartSshd => f.start_status@ == text && if ok {
                    goes_to_keepalive(f, a, "started sshd"@)
                } else {
                    a == FeatureAction::Call(SysCall::SshdListening) && f.phase is ListeningAfterStart
                },
                RemotePhase::ListeningAfterStart => if ok {
                    goes_to_keepalive(f, a, "started sshd"@)
                } else {
                    finishes(a, false, "sshd start failed ("@ + o.start_status@ + ")"@) && f.phase is Over
                },
                RemotePhase::KeepDir => if ok {
                    (a matches FeatureAction::Call(SysCall::ReadFile(p)) && p@ == SSHD_KEEPALIVE_PATH@)
                        && f.phase is KeepRead && f.detail == o.detail
                } else {
                    finishes(a, true, o.detail@) && f.phase is Over
                },
                RemotePhase::KeepRead => if res_file(res) == Some(SSHD_KEEPALIVE_DESIRED@) {
                    finishes(a, true, o.detail@) && f.phase is Over
                } else {
                    (a matches FeatureAction::Call(SysCall::SudoWrite(p, c)) && p@ == SSHD_KEEPALIVE_PATH@
                        && c@ == SSHD_KEEPALIVE_DESIRED@) && f.phase is KeepWrite && f.detail == o.detail
                },
                RemotePhase::KeepWrite => if ok {
                    calls_sudo_ignored(a, keep_reload_args(0)) && f.phase == RemotePhase::KeepReload(0)
                        && f.detail == o.detail
                } else {
                    finishes(a, true, o.detail@ + "; "@ + "sshd keepalive write failed ("@ + text + ")"@)
                        && f.phase is Over
                },
                RemotePhase::KeepReload(k) => if k < 3 {
                    calls_sudo_ignored(a, keep_reload_args(k + 1)) && f.phase == RemotePhase::KeepReload(
                        (k + 1) as usize,
                    ) && f.detail == o.detail
                } else {
                    finishes(a, true, o.detail@ + "; "@ + "sshd ClientAliveInterval=30"@) && f.phase is Over
                },
                RemotePhase::Over => true,
            }
        }),
{
    let ok = result_ok(&res);
    let text = result_text(&res);
    match run.phase {
        RemotePhase::Ticket => {
            if !ok {
                run.phase = RemotePhase::Over;
                return FeatureAction::Finish(StepReport {
                    ok: false,
                    detail: owned("sudo -v failed (password not accepted or cancelled)"),
                });
            }
            match run.os {
                OsKind::Macos => {
                    run.phase = RemotePhase::PortBefore;
                    FeatureAction::Call(SysCall::SshPortOpen)
                },
                OsKind::Linux => {
                    run.phase = RemotePhase::Listening;
                    FeatureAction::Call(SysCall::SshdListening)
                },
            }
        },
        RemotePhase::PortBefore => {
            if ok {
                to_keepalive(run, "already On")
            } else {
                run.phase = RemotePhase::AskBefore;
                get_remote_login_call()
            }
        },
        RemotePhase::AskBefore => {
            if remote_login_reported_on(ok, text.as_str()) {
                to_keepalive(run, "already On")
            } else {
                run.phase = RemotePhase::SetRemote;
                let w = ["/usr/sbin/systemsetup", "-f", "-setremotelogin", "on"];
                assert(w@.map_values(|s: &str| s@) =~= seq![
                    "/usr/sbin/systemsetup"@,
                    "-f"@,
                    "-setremotelogin"@,
                    "on"@,
                ]);
                sudo_output_call(&w)
            }
        },
        RemotePhase::SetRemote => {
            run.set_out = text;
            if ok {
                run.phase = RemotePhase::PortAfterSet;
                FeatureAction::Call(SysCall::SshPortOpen)
            } else {
                let (boot, a) = boot_start(SSH_SERVICE, SSH_PLIST);
                run.boot = boot;
                run.phase = RemotePhase::Boot;
                a
            }
        },
        RemotePhase::PortAfterSet => {
            if ok {
                to_keepalive(run, "systemsetup -f -setremotelogin on")
            } else {
                run.phase = RemotePhase::AskAfterSet;
                get_remote_login_call()
            }
        },
        RemotePhase::AskAfterSet => {
            if remote_login_reported_on(ok, text.as_str()) {
                to_keepalive(run, "systemsetup -f -setremotelogin on")
            } else {
                let (boot, a) = boot_start(SSH_SERVICE, SSH_PLIST);
                run.boot = boot;
                run.phase = RemotePhase::Boot;
                a
            }
        },
        RemotePhase::Boot => {
            match boot_step(&mut run.boot, ok, text.as_str()) {
                Some(a) => a,
                None => {
                    run.phase = RemotePhase::Wait;
                    FeatureAction::Call(SysCall::Sleep(500))
                },
            }
        },
        RemotePhase::Wait => {
            run.phase = RemotePhase::PortAfterBoot;
            FeatureAction::Call(SysCall::SshPortOpen)
        },
        RemotePhase::PortAfterBoot => {
            if ok {
                to_keepalive(run, "launchctl bootstrap com.openssh.sshd (systemsetup needs Full Disk Access)")
            } else {
                run.phase = RemotePhase::AskAfterBoot;
                get_remote_login_call()
            }
        },
        RemotePhase::AskAfterBoot => {
            if remote_login_reported_on(ok, text.as_str()) {
                to_keepalive(run, "launchctl bootstrap com.openssh.sshd (systemsetup needs Full Disk Access)")
            } else {
                let launch = boot_notes(&run.boot);
                run.phase = RemotePhase::Over;
                FeatureAction::Finish(StepReport {
                    ok: false,
                    detail: remote_login_off_detail(run.set_out.as_str(), launch.as_str()),
                })
            }
        },
        RemotePhase::Listening => {
            if ok {
                to_keepalive(run, "sshd already listening")
            } else {
                run.phase = RemotePhase::UnitSsh;
                unit_call("ssh")
            }
        },
        RemotePhase::UnitSsh => {
            if ok {
                to_keepalive(run, "systemctl enable --now ssh")
            } else {
                run.phase = RemotePhase::UnitSshd;
                unit_call("sshd")
            }
        },
        RemotePhase::UnitSshd => {
            if ok {
                to_keepalive(run, "systemctl enable --now sshd")
            } else {
                run.phase = RemotePhase::WhichSshd;
                FeatureAction::Call(SysCall::Which(owned("sshd")))
            }
        },
        RemotePhase::WhichSshd => {
            match res {
                SysResult::Found(Some(p)) => {
                    let mut v: Vec<String> = Vec::new();
                    v.push(p);
                    assert(views(v@) =~= seq![res_found(res)->0]);
                    run.phase = RemotePhase::StartSshd;
                    FeatureAction::Call(SysCall::SudoVisible(v))
                },
                _ => {
                    run.phase = RemotePhase::SbinSshd;
                    FeatureAction::Call(SysCall::IsFile(owned("/usr/sbin/sshd")))
                },
            }
        },
        RemotePhase::SbinSshd => {
            if ok {
                let mut v: Vec<String> = Vec::new();
                v.push(owned("/usr/sbin/sshd"));
                assert(views(v@) =~= seq!["/usr/sbin/sshd"@]);
                run.phase = RemotePhase::StartSshd;
                FeatureAction::Call(SysCall::SudoVisible(v))
            } else {
                run.phase = RemotePhase::Over;
                FeatureAction::Finish(StepReport { ok: false, detail: owned("openssh-server / sshd not available") })
            }
        },
        RemotePhase::StartSshd => {
            run.start_status = text;
            if ok {
                to_keepalive(run, "started sshd")
            } else {
                run.phase = RemotePhase::ListeningAfterStart;
                FeatureAction::Call(SysCall::SshdListening)
            }
        },
        RemotePhase::ListeningAfterStart => {
            if ok {
                to_keepalive(run, "started sshd")
            } else {
                run.phase = RemotePhase::Over;
                FeatureAction::Finish(StepReport {
                    ok: false,
                    detail: concat3("sshd start failed (", run.start_status.as_str(), ")"),
                })
            }
        },
        RemotePhase::KeepDir => {
            if ok {
                run.phase = RemotePhase::KeepRead;
                FeatureAction::Call(SysCall::ReadFile(owned(SSHD_KEEPALIVE_PATH)))
            } else {
                run.phase = RemotePhase::Over;
                FeatureAction::Finish(StepReport { ok: true, detail: owned(run.detail.as_str()) })
            }
        },
        RemotePhase::KeepRead => {
            let same = match &res {
                SysResult::Text(Some(t)) => str_eq(t.as_str(), SSHD_KEEPALIVE_DESIRED),
                _ => false,
            };
            if same {
                run.phase = RemotePhase::Over;
                FeatureAction::Finish(StepReport { ok: true, detail: owned(run.detail.as_str()) })
            } else {
                run.phase = RemotePhase::KeepWrite;
                FeatureAction::Call(SysCall::SudoWrite(owned(SSHD_KEEPALIVE_PATH), owned(SSHD_KEEPALIVE_DESIRED)))
            }
        },
        RemotePhase::KeepWrite => {
            if ok {
                run.phase = RemotePhase::KeepReload(0);
                keep_reload_call(0)
            } else {
                run.phase = RemotePhase::Over;
                let mut d = concat2(run.detail.as_str(), "; ");
                push_str(&mut d, "sshd keepalive write failed (");
                push_str(&mut d, text.as_str());
                push_str(&mut d, ")");
                FeatureAction::Finish(StepReport { ok: true, detail: d })
            }
        },
        RemotePhase::KeepReload(k) => {
            if k < 3 {
                run.phase = RemotePhase::KeepReload(k + 1);
                keep_reload_call(k + 1)
            } else {
                run.phase = RemotePhase::Over;
                let d = concat3(run.detail.as_str(), "; ", "sshd ClientAliveInterval=30");
                FeatureAction::Finish(StepReport { ok: true, detail: d })
            }
        },
        RemotePhase::Over => FeatureAction::Finish(StepReport { ok: true, detail: owned(run.detail.as_str()) }),
    }
}

// ---------------------------------------------------------------------------
// Thunderbolt bridge
// ---------------------------------------------------------------------------

pub enum TbPhase {
    Bridge,
    SetIp,
    ReadPlist,
    WritePlist,
    Reload(usize),
    Over,
}

/// The Thunderbolt step in progress: the address and the notes so far.
pub struct TbRun {
    pub ip: String,
    pub phase: TbPhase,
    pub notes: Vec<String>,
}

/// Where the bridge LaunchDaemon lives.
pub open spec fn tb_plist_path() -> Seq<char> {
    "/Library/LaunchDaemons/"@ + TB_PLIST_LABEL@ + ".plist"@
}

/// The calls that reload the bridge LaunchDaemon, outcome ignored.
pub open spec fn tb_reload_args(k: int) -> Seq<Seq<char>> {
    let path = tb_plist_path();
    let service = "system/"@ + TB_PLIST_LABEL@;
    if k == 0 {
        seq!["chmod"@, "644"@, path]
    } else if k == 1 {
        seq!["launchctl"@, "bootout"@, "system"@, path]
    } else if k == 2 {
        seq!["launchctl"@, "bootstrap"@, "system"@, path]
    } else if k == 3 {
        seq!["launchctl"@, "enable"@, service]
    } else if k == 4 {
        seq!["launchctl"@, "kickstart"@, "-k"@, service]
    } else if k == 5 {
        seq!["launchctl"@, "unload"@, path]
    } else {
        seq!["launchctl"@, "load"@, path]
    }
}

fn tb_path() -> (p: String)
    ensures
        p@ == tb_plist_path(),
{
    concat3("/Library/LaunchDaemons/", TB_PLIST_LABEL, ".plist")
}

fn tb_reload_call(k: usize) -> (a: FeatureAction)
    ensures
        calls_sudo_ignored(a, tb_reload_args(k as int)),
{
    let path = tb_path();
    let service = concat2("system/", TB_PLIST_LABEL);
    let p = path.as_str();
    let sv = service.as_str();
    if k == 0 {
        let w = ["chmod", "644", p];
        assert(w@.map_values(|s: &str| s@) =~= tb_reload_args(0));
        sudo_ignored_call(&w)
    } else if k == 1 {
        let w = ["launchctl", "bootout", "system", p];
        assert(w@.map_values(|s: &str| s@) =~= tb_reload_args(1));
        sudo_ignored_call(&w)
    } else if k == 2 {
        let w = ["launchctl", "bootstrap", "system", p];
        assert(w@.map_values(|s: &str| s@) =~= tb_reload_args(2));
        sudo_ignored_call(&w)
    } else if k == 3 {
        let w = ["launchctl", "enable", sv];
        assert(w@.map_values(|s: &str| s@) =~= tb_reload_args(3));
        sudo_ignored_call(&w)
    } else if k == 4 {
        let w = ["launchctl", "kickstart", "-k", sv];
        assert(w@.map_values(|s: &str| s@) =~= tb_reload_args(4));
        sudo_ignored_call(&w)
    } else if k == 5 {
        let w = ["launchctl", "unload", p];
        assert(w@.map_values(|s: &str| s@) =~= tb_reload_args(5));
        sudo_ignored_call(&w)
    } else {
        let w = ["launchctl", "load", p];
        assert(w@.map_values(|s: &str| s@) =~= tb_reload_args(k as int));
        sudo_ignored_call(&w)
    }
}

/// Starts setting this machine's Thunderbolt bridge (`bridge0`) address `ip`
/// on macOS; Linux has nothing to do. An address that is not IPv4 is refused.
pub fn apply_thunderbolt(ip: &str, os: OsKind) -> (r: Result<(TbRun, FeatureAction), RigError>)
    ensures
        !is_ipv4(ip@) ==> (r matches Err(e) && msg_text(e) == Some("thunderbolt IP must be IPv4: "@ + ip@)),
        is_ipv4(ip@) ==> (r matches Ok((run, a)) && run.ip@ == ip@ && run.notes@.len() == 0 && (
        if os == OsKind::Linux {
            finishes(a, true, "skipped on linux (macOS bridge0 only)"@) && run.phase is Over
        } else {
            (a matches FeatureAction::Call(SysCall::RunOutput(p, args, strict)) && p@ == "ifconfig"@
                && views(args@) == seq!["bridge0"@] && strict) && run.phase is Bridge
        })),
{
    match validate_ipv4(ip) {
        Err(e) => Err(e),
        Ok(()) => {
            match os {
                OsKind::Linux => Ok((
                    TbRun { ip: owned(ip), phase: TbPhase::Over, notes: Vec::new() },
                    FeatureAction::Finish(StepReport {
                        ok: true,
                        detail: owned("skipped on linux (macOS bridge0 only)"),
                    }),
                )),
                OsKind::Macos => {
                    let args = words_list(&["bridge0"]);
                    assert(views(args@) =~= seq!["bridge0"@]);
                    Ok((
                        TbRun { ip: owned(ip), phase: TbPhase::Bridge, notes: Vec::new() },
                        FeatureAction::Call(SysCall::RunOutput(owned("ifconfig"), args, true)),
                    ))
                },
            }
        },
    }
}

/// The next call of the Thunderbolt step after `res`: the bridge's current
/// address, `ifconfig bridge0 inet <ip>` when it differs, then the
/// LaunchDaemon that keeps it, rewritten and reloaded when its text differs.
pub fn thunderbolt_step(run: &mut TbRun, res: SysResult) -> (a: FeatureAction)
    requires
        !(old(run).phase is Over),
    ensures
        final(run).ip == old(run).ip,
        !(final(run).phase is Over) ==> a is Call,
        ({
            let ok = res_ok(res);
            let text = res_text(res);
            let f = *final(run);
            let o = *old(run);
            let ip = o.ip@;
            let n0 = views(o.notes@);
            let n1 = views(f.notes@);
            let read_plist = (a matches FeatureAction::Call(SysCall::ReadFile(p)) && p@ == tb_plist_path())
                && f.phase is ReadPlist;
            match o.phase {
                TbPhase::Bridge => if !ok {
                    finishes(a, true, "no bridge0 — connect Thunderbolt and re-apply"@) && f.phase is Over
                } else if inet_from(lines(text), 0) == Some(ip) {
                    n1 == n0.push("bridge0 already "@ + ip) && read_plist
                } else {
                    calls_sudo(
                        a,
                        seq!["ifconfig"@, "bridge0"@, "inet"@, ip, "netmask"@, "255.255.255.0"@, "up"@],
                    ) && f.phase is SetIp && n1 == n0
                },
                TbPhase::SetIp => if !ok {
                    finishes(a, false, "ifconfig bridge0 inet "@ + ip + " failed"@) && f.phase is Over
                } else {
                    n1 == n0.push("bridge0 → "@ + ip + "/24"@) && read_plist
                },
                TbPhase::ReadPlist => if res_file(res) == Some(spec_thunderbolt_plist(ip)) {
                    finishes(a, true, join_text(n0.push("launchdaemon ok"@), "; "@)) && f.phase is Over
                } else {
                    (a matches FeatureAction::Call(SysCall::SudoWrite(p, c)) && p@ == tb_plist_path()
                        && c@ == spec_thunderbolt_plist(ip)) && f.phase is WritePlist && n1 == n0
                },
                TbPhase::WritePlist => if !ok {
                    finishes(a, true, join_text(n0.push("launchdaemon write failed ("@ + text + ")"@), "; "@))
                        && f.phase is Over
                } else {
                    calls_sudo_ignored(a, tb_reload_args(0)) && f.phase == TbPhase::Reload(0) && n1 == n0
                },
                TbPhase::Reload(k) => if k < 6 {
                    calls_sudo_ignored(a, tb_reload_args(k + 1)) && f.phase == TbPhase::Reload((k + 1) as usize)
                        && n1 == n0
                } else {
                    finishes(a, true, join_text(n0.push("launchdaemon installed"@), "; "@)) && f.phase is Over
                },
                TbPhase::Over => true,
            }
        }),
{
    let ok = result_ok(&res);
    let text = result_text(&res);
    let ghost n0 = views(run.notes@);
    match run.phase {
        TbPhase::Bridge => {
            if !ok {
                run.phase = TbPhase::Over;
                return FeatureAction::Finish(StepReport {
                    ok: true,
                    detail: owned("no bridge0 — connect Thunderbolt and re-apply"),
                });
            }
            let cur = ifconfig_inet(text.as_str());
            let same = match &cur {
                Some(c) => str_eq(c.as_str(), run.ip.as_str()),
                None => false,
            };
            if same {
                let note = concat2("bridge0 already ", run.ip.as_str());
                run.notes.push(note);
                assert(views(run.notes@) =~= n0.push("bridge0 already "@ + run.ip@));
                run.phase = TbPhase::ReadPlist;
                FeatureAction::Call(SysCall::ReadFile(tb_path()))
            } else {
                run.phase = TbPhase::SetIp;
                let w = ["ifconfig", "bridge0", "inet", run.ip.as_str(), "netmask", "255.255.255.0", "up"];
                assert(w@.map_values(|s: &str| s@) =~= seq![
                    "ifconfig"@,
                    "bridge0"@,
                    "inet"@,
                    run.ip@,
                    "netmask"@,
                    "255.255.255.0"@,
                    "up"@,
                ]);
                sudo_call(&w)
            }
        },
        TbPhase::SetIp => {
            if !ok {
                run.phase = TbPhase::Over;
                return FeatureAction::Finish(StepReport {
                    ok: false,
                    detail: concat3("ifconfig bridge0 inet ", run.ip.as_str(), " failed"),
                });
            }
            let note = concat3("bridge0 → ", run.ip.as_str(), "/24");
            run.notes.push(note);
            assert(views(run.notes@) =~= n0.push("bridge0 → "@ + run.ip@ + "/24"@));
            run.phase = TbPhase::ReadPlist;
            FeatureAction::Call(SysCall::ReadFile(tb_path()))
        },
        TbPhase::ReadPlist => {
            let desired = thunderbolt_plist(run.ip.as_str());
            let same = match &res {
                SysResult::Text(Some(t)) => str_eq(t.as_str(), desired.as_str()),
                _ => false,
            };
            if same {
                run.notes.push(owned("launchdaemon ok"));
                assert(views(run.notes@) =~= n0.push("launchdaemon ok"@));
                run.phase = TbPhase::Over;
                FeatureAction::Finish(StepReport { ok: true, detail: join_strings(run.notes.as_slice(), "; ") })
            } else {
                run.phase = TbPhase::WritePlist;
                FeatureAction::Call(SysCall::SudoWrite(tb_path(), desired))
            }
        },
        TbPhase::WritePlist => {
            if !ok {
                let note = concat3("launchdaemon write failed (", text.as_str(), ")");
                run.notes.push(note);
                assert(views(run.notes@) =~= n0.push("launchdaemon write failed ("@ + text@ + ")"@));
                run.phase = TbPhase::Over;
                FeatureAction::Finish(StepReport { ok: true, detail: join_strings(run.notes.as_slice(), "; ") })
            } else {
                run.phase = TbPhase::Reload(0);
                tb_reload_call(0)
            }
        },
        TbPhase::Reload(k) => {
            if k < 6 {
                run.phase = TbPhase::Reload(k + 1);
                tb_reload_call(k + 1)
            } else {
                run.notes.push(owned("launchdaemon installed"));
                assert(views(run.notes@) =~= n0.push("launchdaemon installed"@));
                run.phase = TbPhase::Over;
                FeatureAction::Finish(StepReport { ok: true, detail: join_strings(run.notes.as_slice(), "; ") })
            }
        },
        TbPhase::Over => FeatureAction::Finish(StepReport { ok: true, detail: String::new() }),
    }
}

// ---------------------------------------------------------------------------
// Stay awake
// ---------------------------------------------------------------------------

pub enum AwakePhase {
    PmsetRead,
    PmsetSet,
    Systemd,
    ReadDropin,
    Mkdir,
    WriteDropin,
    Chmod,
    Restart,
    Over,
}

/// The stay-awake step in progress.
pub struct AwakeRun {
    pub phase: AwakePhase,
}

pub open spec fn pmset_off_args() -> Seq<Seq<char>> {
    seq!["pmset"@, "-a"@, "sleep"@, "0"@, "displaysleep"@, "0"@, "disksleep"@, "0"@, "powernap"@, "0"@]
}

/// Starts keeping a headless machine awake: `pmset` on macOS, a logind
/// drop-in on Linux.
pub fn apply_stay_awake(os: OsKind) -> (r: (AwakeRun, FeatureAction))
    ensures
        os == OsKind::Macos ==> (r.1 matches FeatureAction::Call(SysCall::RunOutput(p, args, strict))
            && p@ == "pmset"@ && views(args@) == seq!["-g"@, "custom"@] && !strict) && r.0.phase is PmsetRead,
        os == OsKind::Linux ==> (r.1 matches FeatureAction::Call(SysCall::IsDir(d)) && d@
            == "/run/systemd/system"@) && r.0.phase is Systemd,
{
    match os {
        OsKind::Macos => {
            let args = words_list(&["-g", "custom"]);
            assert(views(args@) =~= seq!["-g"@, "custom"@]);
            (AwakeRun { phase: AwakePhase::PmsetRead }, FeatureAction::Call(SysCall::RunOutput(owned("pmset"), args, false)))
        },
        OsKind::Linux => (
            AwakeRun { phase: AwakePhase::Systemd },
            FeatureAction::Call(SysCall::IsDir(owned("/run/systemd/system"))),
        ),
    }
}

/// The next call of the stay-awake step after `res`. macOS: done when every
/// power source already has sleep, display and disk sleep (and power nap) off,
/// else `pmset -a`. Linux: nothing without systemd; done when the drop-in
/// already holds rig's text; else write it and restart logind.
pub fn stay_awake_step(run: &mut AwakeRun, res: SysResult) -> (a: FeatureAction)
    requires
        !(old(run).phase is Over),
    ensures
        !(final(run).phase is Over) ==> a is Call,
        ({
            let ok = res_ok(res);
            let text = res_text(res);
            let f = *final(run);
            match old(run).phase {
                AwakePhase::PmsetRead => if ok && spec_all_awake(text) {
                    finishes(a, true, "pmset -a already sleep=0 displaysleep=0 disksleep=0 powernap=0"@)
                        && f.phase is Over
                } else {
                    calls_sudo(a, pmset_off_args()) && f.phase is PmsetSet
                },
                AwakePhase::PmsetSet => f.phase is Over && if ok {
                    finishes(a, true, "pmset -a sleep=0 displaysleep=0 disksleep=0 powernap=0"@)
                } else {
                    finishes(a, false, "pmset -a failed"@)
                },
                AwakePhase::Systemd => if ok {
                    (a matches FeatureAction::Call(SysCall::ReadFile(p)) && p@ == LOGIND_DROPIN_PATH@)
                        && f.phase is ReadDropin
                } else {
                    finishes(a, true, "no systemd — skip stay-awake"@) && f.phase is Over
                },
                AwakePhase::ReadDropin => if res_file(res) == Some(LOGIND_DESIRED@) {
                    finishes(a, true, LOGIND_DROPIN_PATH@ + " already"@) && f.phase is Over
                } else {
                    calls_sudo(a, seq!["mkdir"@, "-p"@, "/etc/systemd/logind.conf.d"@]) && f.phase is Mkdir
                },
                AwakePhase::Mkdir => if ok {
                    (a matches FeatureAction::Call(SysCall::SudoWrite(p, c)) && p@ == LOGIND_DROPIN_PATH@
                        && c@ == LOGIND_DESIRED@) && f.phase is WriteDropin
                } else {
                    finishes(a, false, "mkdir /etc/systemd/logind.conf.d failed"@) && f.phase is Over
                },
                AwakePhase::WriteDropin => if ok {
                    calls_sudo_ignored(a, seq!["chmod"@, "644"@, LOGIND_DROPIN_PATH@]) && f.phase is Chmod
                } else {
                    finishes(a, false, "write "@ + LOGIND_DROPIN_PATH@ + " failed"@) && f.phase is Over
                },
                AwakePhase::Chmod => calls_sudo(a, seq!["systemctl"@, "restart"@, "systemd-logind"@])
                    && f.phase is Restart,
                AwakePhase::Restart => f.phase is Over && if ok {
                    finishes(a, true, LOGIND_DROPIN_PATH@ + " (logind restarted)"@)
                } else {
                    finishes(a, true, LOGIND_DROPIN_PATH@ + " (wrote; restart logind skipped)"@)
                },
                AwakePhase::Over => true,
            }
        }),
{
    let ok = result_ok(&res);
    let text = result_text(&res);
    match run.phase {
        AwakePhase::PmsetRead => {
            if ok && pmset_custom_all_awake(text.as_str()) {
                run.phase = AwakePhase::Over;
                FeatureAction::Finish(StepReport {
                    ok: true,
                    detail: owned("pmset -a already sleep=0 displaysleep=0 disksleep=0 powernap=0"),
                })
            } else {
                run.phase = AwakePhase::PmsetSet;
                let w = ["pmset", "-a", "sleep", "0", "displaysleep", "0", "disksleep", "0", "powernap", "0"];
                assert(w@.map_values(|s: &str| s@) =~= pmset_off_args());
                sudo_call(&w)
            }
        },
        AwakePhase::PmsetSet => {
            run.phase = AwakePhase::Over;
            if ok {
                FeatureAction::Finish(StepReport {
                    ok: true,
                    detail: owned("pmset -a sleep=0 displaysleep=0 disksleep=0 powernap=0"),
                })
            } else {
                FeatureAction::Finish(StepReport { ok: false, detail: owned("pmset -a failed") })
            }
        },
        AwakePhase::Systemd => {
            if ok {
                run.phase = AwakePhase::ReadDropin;
                FeatureAction::Call(SysCall::ReadFile(owned(LOGIND_DROPIN_PATH)))
            } else {
                run.phase = AwakePhase::Over;
                FeatureAction::Finish(StepReport { ok: true, detail: owned("no systemd — skip stay-awake") })
            }
        },
        AwakePhase::ReadDropin => {
            let same = match &res {
                SysResult::Text(Some(t)) => str_eq(t.as_str(), LOGIND_DESIRED),
                _ => false,
            };
            if same {
                run.phase = AwakePhase::Over;
                FeatureAction::Finish(StepReport { ok: true, detail: concat2(LOGIND_DROPIN_PATH, " already") })
            } else {
                run.phase = AwakePhase::Mkdir;
                let w = ["mkdir", "-p", "/etc/systemd/logind.conf.d"];
                assert(w@.map_values(|s: &str| s@) =~= seq!["mkdir"@, "-p"@, "/etc/systemd/logind.conf.d"@]);
                sudo_call(&w)
            }
        },
        AwakePhase::Mkdir => {
            if ok {
                run.phase = AwakePhase::WriteDropin;
                FeatureAction::Call(SysCall::SudoWrite(owned(LOGIND_DROPIN_PATH), owned(LOGIND_DESIRED)))
            } else {
                run.phase = AwakePhase::Over;
                FeatureAction::Finish(StepReport {
                    ok: false,
                    detail: owned("mkdir /etc/systemd/logind.conf.d failed"),
                })
            }
        },
        AwakePhase::WriteDropin => {
            if ok {
                run.phase = AwakePhase::Chmod;
                let w = ["chmod", "644", LOGIND_DROPIN_PATH];
                assert(w@.map_values(|s: &str| s@) =~= seq!["chmod"@, "644"@, LOGIND_DROPIN_PATH@]);
                sudo_ignored_call(&w)
            } else {
                run.phase = AwakePhase::Over;
                FeatureAction::Finish(StepReport {
                    ok: false,
                    detail: concat3("write ", LOGIND_DROPIN_PATH, " failed"),
                })
            }
        },
        AwakePhase::Chmod => {
            run.phase = AwakePhase::Restart;
            let w = ["systemctl", "restart", "systemd-logind"];
            assert(w@.map_values(|s: &str| s@) =~= seq!["systemctl"@, "restart"@, "systemd-logind"@]);
            sudo_call(&w)
        },
        AwakePhase::Restart => {
            run.phase = AwakePhase::Over;
            if ok {
                FeatureAction::Finish(StepReport { ok: true, detail: concat2(LOGIND_DROPIN_PATH, " (logind restarted)") })
            } else {
                FeatureAction::Finish(StepReport {
                    ok: true,
                    detail: concat2(LOGIND_DROPIN_PATH, " (wrote; restart logind skipped)"),
                })
            }
        },
        AwakePhase::Over => FeatureAction::Finish(StepReport { ok: true, detail: String::new() }),
    }
}

// ---------------------------------------------------------------------------
// Tailscale
// ---------------------------------------------------------------------------

pub const TAILSCALED_LABEL: &'static str = "dev.rig.tailscaled";

pub enum TsPhase {
    Which,
    /// Linux: the `tailscaled` and `tailscale` units, then a running daemon.
    LinuxUnit(usize),
    LinuxPgrep,
    /// macOS: where `tailscaled` is, its LaunchDaemon, and whether it runs.
    WhichDaemon,
    BrewDaemon(usize),
    ReadPlist,
    WritePlist,
    Reload(usize),
    BrewStop,
    Pgrep,
    Start(usize),
    PgrepAgain,
    /// Both: connected?, the address, Tailscale SSH.
    Status,
    Ip,
    SetSsh,
    Over,
}

/// The Tailscale step in progress: the CLI, the daemon found, the notes, the address.
pub struct TsRun {
    pub os: OsKind,
    pub phase: TsPhase,
    pub cli: String,
    pub daemon: String,
    pub notes: Vec<String>,
    pub ip: Option<String>,
}

pub open spec fn ts_plist_path() -> Seq<char> {
    "/Library/LaunchDaemons/"@ + TAILSCALED_LABEL@ + ".plist"@
}

pub open spec fn ts_reload_args(k: int) -> Seq<Seq<char>> {
    let path = ts_plist_path();
    if k == 0 {
        seq!["chmod"@, "644"@, path]
    } else if k == 1 {
        seq!["launchctl"@, "bootout"@, "system"@, path]
    } else if k == 2 {
        seq!["launchctl"@, "bootstrap"@, "system"@, path]
    } else if k == 3 {
        seq!["launchctl"@, "unload"@, path]
    } else {
        seq!["launchctl"@, "load"@, path]
    }
}

fn ts_path() -> (p: String)
    ensures
        p@ == ts_plist_path(),
{
    concat3("/Library/LaunchDaemons/", TAILSCALED_LABEL, ".plist")
}

fn ts_reload_call(k: usize) -> (a: FeatureAction)
    ensures
        calls_sudo_ignored(a, ts_reload_args(k as int)),
{
    let path = ts_path();
    let p = path.as_str();
    if k == 0 {
        let w = ["chmod", "644", p];
        assert(w@.map_values(|s: &str| s@) =~= ts_reload_args(0));
        sudo_ignored_call(&w)
    } else if k == 1 {
        let w = ["launchctl", "bootout", "system", p];
        assert(w@.map_values(|s: &str| s@) =~= ts_reload_args(1));
        sudo_ignored_call(&w)
    } else if k == 2 {
        let w = ["launchctl", "bootstrap", "system", p];
        assert(w@.map_values(|s: &str| s@) =~= ts_reload_args(2));
        sudo_ignored_call(&w)
    } else if k == 3 {
        let w = ["launchctl", "unload", p];
        assert(w@.map_values(|s: &str| s@) =~= ts_reload_args(3));
        sudo_ignored_call(&w)
    } else {
        let w = ["launchctl", "load", p];
        assert(w@.map_values(|s: &str| s@) =~= ts_reload_args(k as int));
        sudo_ignored_call(&w)
    }
}

/// The connection check (`tailscale status`) comes next.
pub open spec fn checks_status(run: TsRun, a: FeatureAction) -> bool {
    &&& run.phase is Status
    &&& a matches FeatureAction::Call(SysCall::Run(p, args, strict)) && p@ == run.cli@ && views(args@)
        == seq!["status"@] && strict
}

fn status_call(run: &mut TsRun) -> (a: FeatureAction)
    ensures
        checks_status(*final(run), a),
        final(run).os == old(run).os,
        final(run).cli == old(run).cli,
        final(run).daemon == old(run).daemon,
        final(run).notes == old(run).notes,
        final(run).ip == old(run).ip,
{
    run.phase = TsPhase::Status;
    let args = words_list(&["status"]);
    assert(views(args@) =~= seq!["status"@]);
    FeatureAction::Call(SysCall::Run(owned(run.cli.as_str()), args, true))
}

/// Reading the daemon's LaunchDaemon comes next.
pub open spec fn reads_ts_plist(run: TsRun, a: FeatureAction) -> bool {
    &&& run.phase is ReadPlist
    &&& a matches FeatureAction::Call(SysCall::ReadFile(p)) && p@ == ts_plist_path()
}

pub open spec fn calls_pgrep_tailscaled(a: FeatureAction) -> bool {
    a matches FeatureAction::Call(SysCall::Pgrep(n)) && n@ == "tailscaled"@
}

/// Starts configuring Tailscale: first, where its CLI is.
pub fn apply_tailscale(os: OsKind) -> (r: (TsRun, FeatureAction))
    ensures
        r.0.os == os,
        r.0.phase is Which,
        r.0.notes@.len() == 0,
        r.0.ip is None,
        r.1 matches FeatureAction::Call(SysCall::Which(b)) && b@ == "tailscale"@,
{
    let run = TsRun {
        os,
        phase: TsPhase::Which,
        cli: String::new(),
        daemon: String::new(),
        notes: Vec::new(),
        ip: None,
    };
    (run, FeatureAction::Call(SysCall::Which(owned("tailscale"))))
}

/// The step's detail: the connection note first, then the others.
pub open spec fn ts_detail(notes: Seq<Seq<char>>, ip: Option<Seq<char>>) -> Seq<char> {
    join_text(
        seq![
            match ip {
                Some(i) => "connected "@ + i,
                None => "connected"@,
            },
        ] + notes,
        "; "@,
    )
}

/// The next call of the Tailscale step after `res`. Without the CLI it is
/// skipped. The daemon is set up first (a systemd unit on Linux; on macOS a
/// LaunchDaemon, rewritten and reloaded when its text differs, then started
/// when not running); then, when connected, the address is read and
/// Tailscale SSH turned on.
pub fn tailscale_step(run: &mut TsRun, res: SysResult) -> (a: FeatureAction)
    requires
        !(old(run).phase is Over),
    ensures
        final(run).os == old(run).os,
        !(final(run).phase is Over) ==> a is Call,
        ({
            let ok = res_ok(res);
            let text = res_text(res);
            let f = *final(run);
            let o = *old(run);
            let n0 = views(o.notes@);
            let n1 = views(f.notes@);
            let daemon_plist = spec_tailscaled_plist(TAILSCALED_LABEL@, o.daemon@);
            match o.phase {
                TsPhase::Which => match res_found(res) {
                    None => finishes(a, true, "tailscale not installed — skipped"@) && f.phase is Over,
                    Some(cli) => f.cli@ == cli && n1 == n0 && if o.os == OsKind::Macos {
                        (a matches FeatureAction::Call(SysCall::Which(b)) && b@ == "tailscaled"@)
                            && f.phase is WhichDaemon
                    } else {
                        calls_sudo(a, unit_args("tailscaled"@)) && f.phase == TsPhase::LinuxUnit(0)
                    },
                },
                TsPhase::LinuxUnit(k) => if ok {
                    n1 == n0.push("systemctl enable --now "@ + (if k == 0 {
                        "tailscaled"@
                    } else {
                        "tailscale"@
                    })) && checks_status(f, a)
                } else if k == 0 {
                    calls_sudo(a, unit_args("tailscale"@)) && f.phase == TsPhase::LinuxUnit(1) && n1 == n0
                } else {
                    calls_pgrep_tailscaled(a) && f.phase is LinuxPgrep && n1 == n0
                },
                TsPhase::LinuxPgrep => checks_status(f, a) && n1 == n0.push(if ok {
                    "tailscaled already running"@
                } else {
                    "no systemd unit — install Tailscale from https://tailscale.com/download"@
                }),
                TsPhase::WhichDaemon => match res_found(res) {
                    Some(d) => f.daemon@ == d && reads_ts_plist(f, a) && n1 == n0,
                    None => (a matches FeatureAction::Call(SysCall::IsFile(p)) && p@
                        == "/opt/homebrew/bin/tailscaled"@) && f.phase == TsPhase::BrewDaemon(0) && n1 == n0,
                },
                TsPhase::BrewDaemon(k) => if ok {
                    f.daemon@ == (if k == 0 {
                        "/opt/homebrew/bin/tailscaled"@
                    } else {
                        "/usr/local/bin/tailscaled"@
                    }) && reads_ts_plist(f, a) && n1 == n0
                } else if k == 0 {
                    (a matches FeatureAction::Call(SysCall::IsFile(p)) && p@ == "/usr/local/bin/tailscaled"@)
                        && f.phase == TsPhase::BrewDaemon(1) && n1 == n0
                } else {
                    checks_status(f, a) && n1 == n0.push("tailscaled binary not found"@)
                },
                TsPhase::ReadPlist => f.daemon == o.daemon && n1 == n0 && if res_file(res) == Some(daemon_plist) {
                    calls_pgrep_tailscaled(a) && f.phase is Pgrep
                } else {
                    (a matches FeatureAction::Call(SysCall::SudoWrite(p, c)) && p@ == ts_plist_path() && c@
                        == daemon_plist) && f.phase is WritePlist
                },
                TsPhase::WritePlist => if ok {
                    calls_sudo_ignored(a, ts_reload_args(0)) && f.phase == TsPhase::Reload(0) && n1 == n0
                } else {
                    checks_status(f, a) && n1 == n0.push("launchdaemon write failed ("@ + text + ")"@)
                },
                TsPhase::Reload(k) => n1 == n0 && if k < 4 {
                    calls_sudo_ignored(a, ts_reload_args(k + 1)) && f.phase == TsPhase::Reload((k + 1) as usize)
                } else {
                    (a matches FeatureAction::Call(SysCall::RunIgnored(p, args)) && p@ == "brew"@ && views(args@)
                        == seq!["services"@, "stop"@, "tailscale"@]) && f.phase is BrewStop
                },
                TsPhase::BrewStop => calls_pgrep_tailscaled(a) && f.phase is Pgrep && n1 == n0,
                TsPhase::Pgrep => n1 == n0 && if ok {
                    calls_pgrep_tailscaled(a) && f.phase is PgrepAgain
                } else {
                    calls_sudo_ignored(a, seq!["launchctl"@, "load"@, ts_plist_path()]) && f.phase
                        == TsPhase::Start(0)
                },
                TsPhase::Start(k) => n1 == n0 && if k == 0 {
                    calls_sudo_ignored(a, seq!["launchctl"@, "kickstart"@, "-k"@, "system/"@ + TAILSCALED_LABEL@])
                        && f.phase == TsPhase::Start(1)
                } else if k == 1 {
                    a == FeatureAction::Call(SysCall::Sleep(1000)) && f.phase == TsPhase::Start(2)
                } else {
                    calls_pgrep_tailscaled(a) && f.phase is PgrepAgain
                },
                TsPhase::PgrepAgain => checks_status(f, a) && n1 == n0.push(if ok {
                    "tailscaled running"@
                } else {
                    "tailscaled not running yet"@
                }),
                TsPhase::Status => if ok {
                    (a matches FeatureAction::Call(SysCall::RunOutput(p, args, strict)) && p@ == o.cli@
                        && views(args@) == seq!["ip"@, "-4"@] && !strict) && f.phase is Ip && n1 == n0
                } else {
                    finishes(
                        a,
                        true,
                        join_text(n0.push("not connected — run: sudo tailscale up --ssh"@), "; "@),
                    ) && f.phase is Over
                },
                TsPhase::Ip => n1 == n0 && f.phase is SetSsh && (match f.ip {
                    Some(i) => ok && trim(text).len() > 0 && i@ == trim(text),
                    None => !(ok && trim(text).len() > 0),
                }) && (a matches FeatureAction::Call(SysCall::Run(p, args, strict)) && p@ == o.cli@
                    && views(args@) == seq!["set"@, "--ssh=true"@, "--accept-risk=lose-ssh"@] && !strict),
                TsPhase::SetSsh => f.phase is Over && finishes(
                    a,
                    true,
                    ts_detail(
                        n0.push(if ok {
                            "tailscale ssh on"@
                        } else {
                            "tailscale ssh set skipped"@
                        }),
                        match o.ip {
                            Some(i) => Some(i@),
                            None => None,
                        },
                    ),
                ),
                TsPhase::Over => true,
            }
        }),
{
    let ok = result_ok(&res);
    let text = result_text(&res);
    let ghost n0 = views(run.notes@);
    match run.phase {
        TsPhase::Which => {
            match res {
                SysResult::Found(Some(cli)) => {
                    run.cli = cli;
                    match run.os {
                        OsKind::Macos => {
                            run.phase = TsPhase::WhichDaemon;
                            FeatureAction::Call(SysCall::Which(owned("tailscaled")))
                        },
                        OsKind::Linux => {
                            run.phase = TsPhase::LinuxUnit(0);
                            unit_call("tailscaled")
                        },
                    }
                },
                _ => {
                    run.phase = TsPhase::Over;
                    FeatureAction::Finish(StepReport { ok: true, detail: owned("tailscale not installed — skipped") })
                },
            }
        },
        TsPhase::LinuxUnit(k) => {
            if ok {
                let unit = if k == 0 { "tailscaled" } else { "tailscale" };
                run.notes.push(concat2("systemctl enable --now ", unit));
                assert(views(run.notes@) =~= n0.push("systemctl enable --now "@ + unit@));
                status_call(run)
            } else if k == 0 {
                run.phase = TsPhase::LinuxUnit(1);
                unit_call("tailscale")
            } else {
                run.phase = TsPhase::LinuxPgrep;
                FeatureAction::Call(SysCall::Pgrep(owned("tailscaled")))
            }
        },
        TsPhase::LinuxPgrep => {
            let note = if ok {
                "tailscaled already running"
            } else {
                "no systemd unit — install Tailscale from https://tailscale.com/download"
            };
            run.notes.push(owned(note));
            assert(views(run.notes@) =~= n0.push(note@));
            status_call(run)
        },
        TsPhase::WhichDaemon => {
            match res {
                SysResult::Found(Some(d)) => {
                    run.daemon = d;
                    run.phase = TsPhase::ReadPlist;
                    FeatureAction::Call(SysCall::ReadFile(ts_path()))
                },
                _ => {
                    run.phase = TsPhase::BrewDaemon(0);
                    FeatureAction::Call(SysCall::IsFile(owned("/opt/homebrew/bin/tailscaled")))
                },
            }
        },
        TsPhase::BrewDaemon(k) => {
            if ok {
                run.daemon = if k == 0 {
                    owned("/opt/homebrew/bin/tailscaled")
                } else {
                    owned("/usr/local/bin/tailscaled")
                };
                run.phase = TsPhase::ReadPlist;
                FeatureAction::Call(SysCall::ReadFile(ts_path()))
            } else if k == 0 {
                run.phase = TsPhase::BrewDaemon(1);
                FeatureAction::Call(SysCall::IsFile(owned("/usr/local/bin/tailscaled")))
            } else {
                run.notes.push(owned("tailscaled binary not found"));
                assert(views(run.notes@) =~= n0.push("tailscaled binary not found"@));
                status_call(run)
            }
        },
        TsPhase::ReadPlist => {
            let desired = tailscaled_plist(TAILSCALED_LABEL, run.daemon.as_str());
            let same = match &res {
                SysResult::Text(Some(t)) => str_eq(t.as_str(), desired.as_str()),
                _ => false,
            };
            if same {
                run.phase = TsPhase::Pgrep;
                FeatureAction::Call(SysCall::Pgrep(owned("tailscaled")))
            } else {
                run.phase = TsPhase::WritePlist;
                FeatureAction::Call(SysCall::SudoWrite(ts_path(), desired))
            }
        },
        TsPhase::WritePlist => {
            if ok {
                run.phase = TsPhase::Reload(0);
                ts_reload_call(0)
            } else {
                run.notes.push(concat3("launchdaemon write failed (", text.as_str(), ")"));
                assert(views(run.notes@) =~= n0.push("launchdaemon write failed ("@ + text@ + ")"@));
                status_call(run)
            }
        },
        TsPhase::Reload(k) => {
            if k < 4 {
                run.phase = TsPhase::Reload(k + 1);
                ts_reload_call(k + 1)
            } else {
                run.phase = TsPhase::BrewStop;
                let args = words_list(&["services", "stop", "tailscale"]);
                assert(views(args@) =~= seq!["services"@, "stop"@, "tailscale"@]);
                FeatureAction::Call(SysCall::RunIgnored(owned("brew"), args))
            }
        },
        TsPhase::BrewStop => {
            run.phase = TsPhase::Pgrep;
            FeatureAction::Call(SysCall::Pgrep(owned("tailscaled")))
        },
        TsPhase::Pgrep => {
            if ok {
                run.phase = TsPhase::PgrepAgain;
                FeatureAction::Call(SysCall::Pgrep(owned("tailscaled")))
            } else {
                run.phase = TsPhase::Start(0);
                let path = ts_path();
                let w = ["launchctl", "load", path.as_str()];
                assert(w@.map_values(|s: &str| s@) =~= seq!["launchctl"@, "load"@, ts_plist_path()]);
                sudo_ignored_call(&w)
            }
        },
        TsPhase::Start(k) => {
            if k == 0 {
                run.phase = TsPhase::Start(1);
                let service = concat2("system/", TAILSCALED_LABEL);
                let w = ["launchctl", "kickstart", "-k", service.as_str()];
                assert(w@.map_values(|s: &str| s@) =~= seq![
                    "launchctl"@,
                    "kickstart"@,
                    "-k"@,
                    "system/"@ + TAILSCALED_LABEL@,
                ]);
                sudo_ignored_call(&w)
            } else if k == 1 {
                run.phase = TsPhase::Start(2);
                FeatureAction::Call(SysCall::Sleep(1000))
            } else {
                run.phase = TsPhase::PgrepAgain;
                FeatureAction::Call(SysCall::Pgrep(owned("tailscaled")))
            }
        },
        TsPhase::PgrepAgain => {
            let note = if ok { "tailscaled running" } else { "tailscaled not running yet" };
            run.notes.push(owned(note));
            assert(views(run.notes@) =~= n0.push(note@));
            status_call(run)
        },
        TsPhase::Status => {
            if ok {
                run.phase = TsPhase::Ip;
                let args = words_list(&["ip", "-4"]);
                assert(views(args@) =~= seq!["ip"@, "-4"@]);
                FeatureAction::Call(SysCall::RunOutput(owned(run.cli.as_str()), args, false))
            } else {
                run.notes.push(owned("not connected — run: sudo tailscale up --ssh"));
                assert(views(run.notes@) =~= n0.push("not connected — run: sudo tailscale up --ssh"@));
                run.phase = TsPhase::Over;
                FeatureAction::Finish(StepReport { ok: true, detail: join_strings(run.notes.as_slice(), "; ") })
            }
        },
        TsPhase::Ip => {
            let t = trim_chars(chars_of(text.as_str()).as_slice());
            run.ip = if ok && t.len() > 0 {
                Some(string_of(t.as_slice()))
            } else {
                None
            };
            run.phase = TsPhase::SetSsh;
            let args = words_list(&["set", "--ssh=true", "--accept-risk=lose-ssh"]);
            assert(views(args@) =~= seq!["set"@, "--ssh=true"@, "--accept-risk=lose-ssh"@]);
            FeatureAction::Call(SysCall::Run(owned(run.cli.as_str()), args, false))
        },
        TsPhase::SetSsh => {
            let note = if ok { "tailscale ssh on" } else { "tailscale ssh set skipped" };
            run.notes.push(owned(note));
            let head = match &run.ip {
                Some(i) => concat2("connected ", i.as_str()),
                None => owned("connected"),
            };
            let ghost hv = head@;
            assert(hv == (match run.ip {
                Some(i) => "connected "@ + i@,
                None => "connected"@,
            }));
            let mut all: Vec<String> = Vec::new();
            all.push(head);
            let mut i: usize = 0;
            while i < run.notes.len()
                invariant
                    i <= run.notes@.len(),
                    views(all@) == seq![hv] + views(run.notes@).subrange(0, i as int),
                decreases run.notes@.len() - i,
            {
                let ghost before = views(all@);
                all.push(owned(run.notes[i].as_str()));
                assert(views(all@) =~= before.push(run.notes@[i as int]@));
                assert(views(run.notes@).subrange(0, i + 1) =~= views(run.notes@).subrange(0, i as int).push(
                    run.notes@[i as int]@,
                ));
                i = i + 1;
            }
            assert(views(run.notes@).subrange(0, run.notes@.len() as int) =~= views(run.notes@));
            assert(views(run.notes@) =~= n0.push(note@));
            run.phase = TsPhase::Over;
            FeatureAction::Finish(StepReport { ok: true, detail: join_strings(all.as_slice(), "; ") })
        },
        TsPhase::Over => FeatureAction::Finish(StepReport { ok: true, detail: String::new() }),
    }
}

} // verus!
