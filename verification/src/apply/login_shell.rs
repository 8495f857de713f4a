//! Setting the account's login shell to the role's shell: the plan text, the
//! parsing of `dscl` / `getent` / `/etc/shells`, and the decisions between the
//! system calls that app/ makes.
use vstd::prelude::*;
use crate::apply::features::StepReport;
use crate::apply::plan::shell_name;
use crate::paths::{join, join_path, paths_equal, same_path};
use crate::schema::{OsKind, ShellKind};
use crate::text::{
    chars_eq, chars_of, concat2, concat3, lines, lines_of, owned, split_char, split_chars,
    starts_with, starts_with_chars, string_of, trim, trim_chars, words, words_of,
};

verus! {

/// What the plan says the login-shell step will do.
pub open spec fn spec_plan_detail(shell: ShellKind, os: OsKind) -> Seq<char> {
    match (shell, os) {
        (ShellKind::Bash, OsKind::Macos) => "chsh to Homebrew bash (not /bin/bash 3.2)"@,
        (ShellKind::Zsh, OsKind::Macos) => "chsh to Homebrew zsh (not /bin/zsh)"@,
        (ShellKind::Bash, OsKind::Linux) => "chsh to bash"@,
        (ShellKind::Zsh, OsKind::Linux) => "chsh to zsh"@,
    }
}

pub fn plan_detail(shell: ShellKind, os: OsKind) -> (r: String)
    ensures
        r@ == spec_plan_detail(shell, os),
{
    match (shell, os) {
        (ShellKind::Bash, OsKind::Macos) => owned("chsh to Homebrew bash (not /bin/bash 3.2)"),
        (ShellKind::Zsh, OsKind::Macos) => owned("chsh to Homebrew zsh (not /bin/zsh)"),
        (ShellKind::Bash, OsKind::Linux) => owned("chsh to bash"),
        (ShellKind::Zsh, OsKind::Linux) => owned("chsh to zsh"),
    }
}

/// The failure when the wanted shell binary was not found.
pub open spec fn spec_shell_not_found_detail(shell: ShellKind, os: OsKind) -> Seq<char> {
    match (shell, os) {
        (ShellKind::Bash, OsKind::Macos) => "Homebrew bash not found (brew install bash)"@,
        (ShellKind::Zsh, OsKind::Macos) => "Homebrew zsh not found (brew install zsh)"@,
        (ShellKind::Zsh, OsKind::Linux) => "zsh not found on PATH"@,
        (ShellKind::Bash, OsKind::Linux) => "bash not found on PATH"@,
    }
}

pub fn shell_not_found_detail(shell: ShellKind, os: OsKind) -> (r: String)
    ensures
        r@ == spec_shell_not_found_detail(shell, os),
{
    match (shell, os) {
        (ShellKind::Bash, OsKind::Macos) => owned("Homebrew bash not found (brew install bash)"),
        (ShellKind::Zsh, OsKind::Macos) => owned("Homebrew zsh not found (brew install zsh)"),
        (ShellKind::Zsh, OsKind::Linux) => owned("zsh not found on PATH"),
        (ShellKind::Bash, OsKind::Linux) => owned("bash not found on PATH"),
    }
}

/// macOS's own `/bin/bash` (3.2) is never chosen as a login shell.
pub fn is_apple_stock_bash(path: &str) -> (b: bool)
    ensures
        b == same_path(path@, "/bin/bash"@),
{
    paths_equal(path, "/bin/bash")
}

/// The binary of a Homebrew formula under the prefix that `brew --prefix`
/// printed, or `None` when it printed nothing.
pub fn brew_prefix_bin(prefix_out: &str, formula: &str) -> (r: Option<String>)
    ensures
        trim(prefix_out@).len() == 0 ==> r is None,
        trim(prefix_out@).len() > 0 ==> (r matches Some(p) && p@ == join_path(
            join_path(trim(prefix_out@), "bin"@),
            formula@,
        )),
{
    let tc = trim_chars(chars_of(prefix_out).as_slice());
    if tc.len() == 0 {
        return None;
    }
    let t = string_of(tc.as_slice());
    let b = join(t.as_str(), "bin");
    Some(join(b.as_str(), formula))
}

/// Where Homebrew keeps a formula's binary when `brew` itself is not found:
/// Apple silicon first, then Intel.
pub fn brew_fallback_bins(formula: &str) -> (r: Vec<String>)
    ensures
        r@.len() == 2,
        r@[0]@ == join_path("/opt/homebrew/bin"@, formula@),
        r@[1]@ == join_path("/usr/local/bin"@, formula@),
{
    let mut r: Vec<String> = Vec::new();
    r.push(join("/opt/homebrew/bin", formula));
    r.push(join("/usr/local/bin", formula));
    r
}

/// The shell under `/usr/bin` that Linux falls back on when it is not on `PATH`.
pub fn linux_fallback_shell(shell: ShellKind) -> (r: String)
    ensures
        r@ == join_path("/usr/bin"@, shell_name(shell)),
{
    join("/usr/bin", shell.as_str())
}

/// The directory-service record read for `user` on macOS.
pub fn dscl_user_record(user: &str) -> (r: String)
    ensures
        r@ == "/Users/"@ + user@,
{
    concat2("/Users/", user)
}

/// The shell in `dscl . -read /Users/<user> UserShell` output
/// (`UserShell: /bin/zsh`): its second word.
pub fn dscl_user_shell(out: &str) -> (r: Option<String>)
    ensures
        words(out@).len() > 1 ==> (r matches Some(s) && s@ == words(out@)[1]),
        words(out@).len() <= 1 ==> r is None,
{
    let ws = words_of(chars_of(out).as_slice());
    if ws.len() > 1 {
        assert(ws@.map_values(|l: Vec<char>| l@)[1] == ws[1]@);
        Some(string_of(ws[1].as_slice()))
    } else {
        None
    }
}

/// The shell in a `getent passwd <user>` line: the last `:` field, trimmed.
pub fn getent_login_shell(line: &str) -> (r: String)
    ensures
        r@ == trim(split_char(trim(line@), ':').last()),
{
    let t = trim_chars(chars_of(line).as_slice());
    let parts = split_chars(t.as_slice(), ':');
    let last = parts.len() - 1;
    assert(parts@.map_values(|l: Vec<char>| l@)[last as int] == parts[last as int]@);
    string_of(trim_chars(parts[last].as_slice()).as_slice())
}

/// A line of `/etc/shells` that lists `want`: not a comment, and equal to it
/// once trimmed.
pub open spec fn shells_line_lists(line: Seq<char>, want: Seq<char>) -> bool {
    !starts_with(trim(line), "#"@) && trim(line) == want
}

/// Whether `/etc/shells` (its text) lists `want`.
pub fn shells_file_lists(text: &str, want: &str) -> (r: bool)
    ensures
        r == exists|i: int| 0 <= i < lines(text@).len() && #[trigger] shells_line_lists(lines(text@)[i], want@),
{
    let ls = lines_of(chars_of(text).as_slice());
    let ghost lv = ls@.map_values(|l: Vec<char>| l@);
    let w = chars_of(want);
    let hash = chars_of("#");
    let mut i: usize = 0;
    while i < ls.len()
        invariant
            i <= ls.len(),
            lv == ls@.map_values(|l: Vec<char>| l@),
            lv == lines(text@),
            w@ == want@,
            hash@ == "#"@,
            forall|k: int| 0 <= k < i ==> !#[trigger] shells_line_lists(lv[k], want@),
        decreases ls.len() - i,
    {
        let t = trim_chars(ls[i].as_slice());
        assert(lv[i as int] == ls[i as int]@);
        if !starts_with_chars(t.as_slice(), hash.as_slice()) && chars_eq(t.as_slice(), w.as_slice()) {
            assert(shells_line_lists(lv[i as int], want@));
            return true;
        }
        i = i + 1;
    }
    false
}

// ---------------------------------------------------------------------------
// The login-shell step, one decision at a time
// ---------------------------------------------------------------------------

/// What app/ learned from the last system call of the login-shell step.
pub enum LoginShellEvent {
    /// Where the role's shell binary was found, if anywhere.
    Located(Option<String>),
    /// Whether the account's current login shell is that binary
    /// (`false` also when the current shell could not be read).
    CurrentCompared(bool),
    /// Whether `/etc/shells` lists the binary.
    ShellsFileChecked(bool),
    /// Whether `sudo -v` succeeded.
    SudoRenewed(bool),
    /// Whether the binary was appended to `/etc/shells`.
    ShellsAppended(bool),
    /// Whether `chsh` (plain, then through sudo) succeeded.
    ShellChanged(bool),
}

/// What app/ does next in the login-shell step.
pub enum LoginShellAction {
    /// The step is over with this report.
    Finish(StepReport),
    /// Read the account's login shell and compare it with this binary.
    CompareCurrent(String),
    /// Look for this binary in `/etc/shells`.
    CheckShellsFile(String),
    /// Renew the sudo ticket.
    RenewSudo,
    /// Append this binary to `/etc/shells` through sudo.
    AppendShells(String),
    /// `chsh -s` to this binary.
    ChangeShell(String),
}

pub open spec fn finishes(a: LoginShellAction, ok: bool, detail: Seq<char>) -> bool {
    a matches LoginShellAction::Finish(r) && r.ok == ok && r.detail@ == detail
}

/// The next action of the login-shell step for `shell` on `os`, after `event`;
/// `wanted` is the binary that was located (unused for `Located`).
pub fn apply_login_shell(shell: ShellKind, os: OsKind, wanted: &str, event: LoginShellEvent) -> (a:
    LoginShellAction)
    ensures
        match event {
            LoginShellEvent::Located(None) => finishes(a, false, spec_shell_not_found_detail(shell, os)),
            LoginShellEvent::Located(Some(p)) => if same_path(p@, "/bin/bash"@) {
                finishes(a, false, "refusing /bin/bash (macOS ships 3.2); install Homebrew bash"@)
            } else {
                a matches LoginShellAction::CompareCurrent(q) && q@ == p@
            },
            LoginShellEvent::CurrentCompared(same) => if same {
                finishes(a, true, "already "@ + wanted@)
            } else {
                a matches LoginShellAction::CheckShellsFile(q) && q@ == wanted@
            },
            LoginShellEvent::ShellsFileChecked(listed) => if listed {
                a matches LoginShellAction::ChangeShell(q) && q@ == wanted@
            } else {
                a is RenewSudo
            },
            LoginShellEvent::SudoRenewed(ok) => if ok {
                a matches LoginShellAction::AppendShells(q) && q@ == wanted@
            } else {
                finishes(a, false, "sudo -v failed (needed to add shell to /etc/shells)"@)
            },
            LoginShellEvent::ShellsAppended(ok) => if ok {
                a matches LoginShellAction::ChangeShell(q) && q@ == wanted@
            } else {
                finishes(a, false, "could not add "@ + wanted@ + " to /etc/shells"@)
            },
            LoginShellEvent::ShellChanged(ok) => if ok {
                finishes(a, true, "chsh → "@ + wanted@)
            } else {
                finishes(a, false, "chsh -s "@ + wanted@ + " failed"@)
            },
        },
{
    match event {
        LoginShellEvent::Located(None) => LoginShellAction::Finish(
            StepReport { ok: false, detail: shell_not_found_detail(shell, os) },
        ),
        LoginShellEvent::Located(Some(p)) => {
            if is_apple_stock_bash(p.as_str()) {
                LoginShellAction::Finish(
                    StepReport {
                        ok: false,
                        detail: owned("refusing /bin/bash (macOS ships 3.2); install Homebrew bash"),
                    },
                )
            } else {
                LoginShellAction::CompareCurrent(p)
            }
        },
        LoginShellEvent::CurrentCompared(same) => {
            if same {
                LoginShellAction::Finish(StepReport { ok: true, detail: concat2("already ", wanted) })
            } else {
                LoginShellAction::CheckShellsFile(owned(wanted))
            }
        },
        LoginShellEvent::ShellsFileChecked(listed) => {
            if listed {
                LoginShellAction::ChangeShell(owned(wanted))
            } else {
                LoginShellAction::RenewSudo
            }
        },
        LoginShellEvent::SudoRenewed(ok) => {
            if ok {
                LoginShellAction::AppendShells(owned(wanted))
            } else {
                LoginShellAction::Finish(
                    StepReport {
                        ok: false,
                        detail: owned("sudo -v failed (needed to add shell to /etc/shells)"),
                    },
                )
            }
        },
        LoginShellEvent::ShellsAppended(ok) => {
            if ok {
                LoginShellAction::ChangeShell(owned(wanted))
            } else {
                LoginShellAction::Finish(
                    StepReport { ok: false, detail: concat3("could not add ", wanted, " to /etc/shells") },
                )
            }
        },
        LoginShellEvent::ShellChanged(ok) => {
            if ok {
                LoginShellAction::Finish(StepReport { ok: true, detail: concat2("chsh → ", wanted) })
            } else {
                LoginShellAction::Finish(
                    StepReport { ok: false, detail: concat3("chsh -s ", wanted, " failed") },
                )
            }
        },
    }
}

} // verus!
