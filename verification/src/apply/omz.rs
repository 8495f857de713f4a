//! Oh My Zsh with Powerlevel10k and two plugins, as a state machine: it
//! asks the caller to check directories, run the installer and clone, and
//! decides from the answers what comes next and what the step reports.
use vstd::prelude::*;
use crate::apply::features::StepReport;
use crate::error::{msg_text, RigError};
use crate::paths::{join, join_path};
use crate::text::{concat2, concat3, join as join_text, join_strings, owned, push_str, views};

verus! {

/// The installer command, run with `sh -c`, `CHSH=no` and `RUNZSH=no`.
pub const OMZ_INSTALL: &'static str =
    "curl -fsSL https://raw.githubusercontent.com/ohmyzsh/ohmyzsh/master/tools/install.sh | sh -s -- --unattended";

/// The repositories cloned under `~/.oh-my-zsh/custom`: address, place, label.
pub open spec fn omz_repo(k: int) -> (Seq<char>, Seq<char>, Seq<char>) {
    if k == 0 {
        ("https://github.com/romkatv/powerlevel10k.git"@, "themes/powerlevel10k"@, "powerlevel10k"@)
    } else if k == 1 {
        ("https://github.com/zsh-users/zsh-autosuggestions"@, "plugins/zsh-autosuggestions"@, "zsh-autosuggestions"@)
    } else {
        (
            "https://github.com/zsh-users/zsh-syntax-highlighting.git"@,
            "plugins/zsh-syntax-highlighting"@,
            "zsh-syntax-highlighting"@,
        )
    }
}

fn repo(k: usize) -> (r: (&'static str, &'static str, &'static str))
    requires
        k < 3,
    ensures
        (r.0@, r.1@, r.2@) == omz_repo(k as int),
{
    if k == 0 {
        ("https://github.com/romkatv/powerlevel10k.git", "themes/powerlevel10k", "powerlevel10k")
    } else if k == 1 {
        ("https://github.com/zsh-users/zsh-autosuggestions", "plugins/zsh-autosuggestions", "zsh-autosuggestions")
    } else {
        (
            "https://github.com/zsh-users/zsh-syntax-highlighting.git",
            "plugins/zsh-syntax-highlighting",
            "zsh-syntax-highlighting",
        )
    }
}

/// Where the machine stands.
#[derive(Clone, Copy, PartialEq, Eq, Structural)]
pub enum OmzPhase {
    /// Asked whether `~/.oh-my-zsh` is a directory.
    CheckOmz,
    /// Asked to run the installer.
    Installing,
    /// Asked whether repository `k` is there.
    CheckRepo(usize),
    /// Asked to clone repository `k`.
    Cloning(usize),
    Done,
}

/// The state of the step: `~/.oh-my-zsh`, the notes so far, the phase.
pub struct OmzRun {
    pub zsh: String,
    pub notes: Vec<String>,
    pub phase: OmzPhase,
}

/// What the caller does next.
pub enum OmzAction {
    /// Answer whether this path is a directory.
    CheckDir(String),
    /// Run `sh -c OMZ_INSTALL` with `CHSH=no`, `RUNZSH=no` and no input.
    RunInstall,
    /// Create `parent`, then `git clone --depth=1 url dest` without output.
    Clone { url: String, dest: String, parent: String },
    /// The step is over.
    Finish(StepReport),
}

/// The caller's answer.
pub enum OmzEvent {
    /// Whether the path asked about is a directory.
    Dir(bool),
    /// How a command ended: success, and its exit status as text.
    Ran { ok: bool, status: String },
}

pub open spec fn repo_dest(zsh: Seq<char>, k: int) -> Seq<char> {
    join_path(join_path(zsh, "custom"@), omz_repo(k).1)
}

/// The action that looks at repository `k`, or the report once all three
/// are done.
pub open spec fn after_repo(run: OmzRun, k: int, a: OmzAction) -> bool {
    if k < 3 {
        a matches OmzAction::CheckDir(p) && p@ == repo_dest(run.zsh@, k) && run.phase == OmzPhase::CheckRepo(k as usize)
    } else {
        a matches OmzAction::Finish(r) && r.ok && r.detail@ == join_text(views(run.notes@), "; "@)
            && run.phase == OmzPhase::Done
    }
}

/// Starts the step with the home directory (`$HOME`): an error without one.
pub fn ensure_omz_stack(home: Option<&str>) -> (r: Result<(OmzRun, OmzAction), RigError>)
    ensures
        match home {
            None => r matches Err(e) && msg_text(e) == Some("HOME is not set"@),
            Some(h) => r matches Ok((run, a)) && run.zsh@ == join_path(h@, ".oh-my-zsh"@) && run.notes@.len() == 0
                && run.phase == OmzPhase::CheckOmz && (a matches OmzAction::CheckDir(p) && p@ == run.zsh@),
        },
{
    match home {
        None => Err(RigError::Msg(owned("HOME is not set"))),
        Some(h) => {
            let zsh = join(h, ".oh-my-zsh");
            let a = OmzAction::CheckDir(owned(zsh.as_str()));
            Ok((OmzRun { zsh, notes: Vec::new(), phase: OmzPhase::CheckOmz }, a))
        },
    }
}

/// The event answers the phase: a directory check or a finished command.
pub open spec fn omz_answers(phase: OmzPhase, e: OmzEvent) -> bool {
    match phase {
        OmzPhase::CheckOmz | OmzPhase::CheckRepo(_) => e is Dir,
        OmzPhase::Installing | OmzPhase::Cloning(_) => e is Ran,
        OmzPhase::Done => false,
    }
}

pub open spec fn omz_wf(run: OmzRun) -> bool {
    match run.phase {
        OmzPhase::CheckRepo(k) | OmzPhase::Cloning(k) => k < 3,
        _ => true,
    }
}

fn next_repo(run: &mut OmzRun, k: usize) -> (a: OmzAction)
    requires
        k <= 3,
    ensures
        final(run).zsh == old(run).zsh,
        final(run).notes == old(run).notes,
        after_repo(*final(run), k as int, a),
        omz_wf(*final(run)),
{
    if k < 3 {
        run.phase = OmzPhase::CheckRepo(k);
        let (_, rel, _) = repo(k);
        let c = join(run.zsh.as_str(), "custom");
        OmzAction::CheckDir(join(c.as_str(), rel))
    } else {
        run.phase = OmzPhase::Done;
        OmzAction::Finish(StepReport { ok: true, detail: join_strings(run.notes.as_slice(), "; ") })
    }
}

fn note(run: &mut OmzRun, n: String)
    ensures
        final(run).zsh == old(run).zsh,
        final(run).phase == old(run).phase,
        views(final(run).notes@) == views(old(run).notes@).push(n@),
{
    let ghost b = views(run.notes@);
    run.notes.push(n);
    assert(views(run.notes@) =~= b.push(n@));
}

/// The next action after the caller's answer: a missing `~/.oh-my-zsh` is
/// installed (a failed install ends the step as failed); each repository is
/// noted present, or cloned and noted cloned or failed; then the report of
/// the notes.
pub fn omz_step(run: &mut OmzRun, e: OmzEvent) -> (a: OmzAction)
    requires
        omz_answers(old(run).phase, e),
        omz_wf(*old(run)),
    ensures
        omz_wf(*final(run)),
        final(run).zsh == old(run).zsh,
        match (old(run).phase, e) {
            (OmzPhase::CheckOmz, OmzEvent::Dir(true)) => views(final(run).notes@) == views(old(run).notes@).push(
                "oh-my-zsh present"@,
            ) && after_repo(*final(run), 0, a),
            (OmzPhase::CheckOmz, OmzEvent::Dir(false)) => a is RunInstall && final(run).phase == OmzPhase::Installing
                && final(run).notes == old(run).notes,
            (OmzPhase::Installing, OmzEvent::Ran { ok, status }) => if ok {
                views(final(run).notes@) == views(old(run).notes@).push("installed oh-my-zsh"@) && after_repo(
                    *final(run),
                    0,
                    a,
                )
            } else {
                a matches OmzAction::Finish(r) && !r.ok && r.detail@ == "oh-my-zsh install failed ("@ + status@ + ")"@
                    && final(run).phase == OmzPhase::Done
            },
            (OmzPhase::CheckRepo(k), OmzEvent::Dir(true)) => views(final(run).notes@) == views(old(run).notes@).push(
                omz_repo(k as int).2 + " present"@,
            ) && after_repo(*final(run), k + 1, a),
            (OmzPhase::CheckRepo(k), OmzEvent::Dir(false)) => (a matches OmzAction::Clone { url, dest, parent } && url@
                == omz_repo(k as int).0 && dest@ == repo_dest(old(run).zsh@, k as int) && parent@ == join_path(
                join_path(old(run).zsh@, "custom"@),
                if k == 0 {
                    "themes"@
                } else {
                    "plugins"@
                },
            )) && final(run).phase == OmzPhase::Cloning(k) && final(run).notes == old(run).notes,
            (OmzPhase::Cloning(k), OmzEvent::Ran { ok, status }) => views(final(run).notes@) == views(
                old(run).notes@,
            ).push(
                if ok {
                    "cloned "@ + omz_repo(k as int).2
                } else {
                    omz_repo(k as int).2 + " clone failed ("@ + status@ + ")"@
                },
            ) && after_repo(*final(run), k + 1, a),
            _ => false,
        },
{
    match (run.phase, e) {
        (OmzPhase::CheckOmz, OmzEvent::Dir(true)) => {
            note(run, owned("oh-my-zsh present"));
            next_repo(run, 0)
        },
        (OmzPhase::CheckOmz, OmzEvent::Dir(false)) => {
            run.phase = OmzPhase::Installing;
            OmzAction::RunInstall
        },
        (OmzPhase::Installing, OmzEvent::Ran { ok, status }) => {
            if ok {
                note(run, owned("installed oh-my-zsh"));
                next_repo(run, 0)
            } else {
                run.phase = OmzPhase::Done;
                OmzAction::Finish(
                    StepReport { ok: false, detail: concat3("oh-my-zsh install failed (", status.as_str(), ")") },
                )
            }
        },
        (OmzPhase::CheckRepo(k), OmzEvent::Dir(true)) => {
            let (_, _, label) = repo(k);
            note(run, concat2(label, " present"));
            next_repo(run, k + 1)
        },
        (OmzPhase::CheckRepo(k), OmzEvent::Dir(false)) => {
            let (url, rel, _) = repo(k);
            let c = join(run.zsh.as_str(), "custom");
            let parent = join(c.as_str(), if k == 0 { "themes" } else { "plugins" });
            run.phase = OmzPhase::Cloning(k);
            OmzAction::Clone { url: owned(url), dest: join(c.as_str(), rel), parent }
        },
        (OmzPhase::Cloning(k), OmzEvent::Ran { ok, status }) => {
            let (_, _, label) = repo(k);
            let n = if ok {
                concat2("cloned ", label)
            } else {
                concat3(label, " clone failed (", status.as_str())
            };
            let n = if ok {
                n
            } else {
                let mut m = n;
                push_str(&mut m, ")");
                m
            };
            note(run, n);
            next_repo(run, k + 1)
        },
        _ => OmzAction::RunInstall,
    }
}

} // verus!
