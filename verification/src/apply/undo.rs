//! Reversing an apply from its state manifest, one file operation at a time:
//! managed files and rc blocks, the shell config directory, the recorded
//! packages, the stay-awake drop-in, and the manifest itself.
use vstd::prelude::*;
use crate::apply::clean::{
    apt_packages, brew_formula_names, clean_action, entries_for_os, entries_of, spec_clean_action,
    spec_is_shell_rc, spec_stay_awake_was_applied, spec_strip_rig_block, stay_awake_was_applied,
    strip_rig_block, is_shell_rc, tagged_name, CleanAction, CleanReport,
};
use crate::apply::features::LOGIND_DROPIN_PATH;
use crate::apply::plan::copy_strings;
use crate::apply::state::RigState;
use crate::order::strictly_sorted_lex;
use crate::packages::PackageSetContents;
use crate::paths::{join, join_path};
use crate::schema::{detect_os, OsKind};
use crate::schema::host::spec_detect_os;
use crate::schema::file_name;
use crate::text::{concat2, concat3, join as join_text, join_strings, owned, push_str, views};

verus! {

/// The OS whose packages and drop-ins a clean run undoes.
pub fn detect_os_for_clean(target_os: &str) -> (k: OsKind)
    ensures
        k == spec_detect_os(target_os@),
{
    detect_os(target_os)
}

/// A file operation of a clean run.
pub enum CleanCall {
    /// What is at a path; answered with `Info`.
    Inspect(String),
    /// Read a file; answered with `Text`.
    Read(String),
    /// Write a file; answered with `Done`.
    Write(String, String),
    /// Remove a file or link; answered with `Done`.
    RemoveFile(String),
    /// Remove a directory and what it holds; answered with `Done`.
    RemoveDir(String),
    /// Load the recorded package sets; answered with `Sets`.
    LoadSets,
    /// Run a program (through sudo when asked, output discarded when quiet);
    /// answered with `Status`.
    Run { program: String, args: Vec<String>, sudo: bool, quiet: bool },
}

/// What came of the last operation. Error texts are as the operation's error
/// displays itself.
pub enum CleanEvent {
    Info { exists: bool, is_symlink: bool, is_file: bool, is_dir: bool },
    Text(Result<String, String>),
    Done(Result<(), String>),
    Sets(Result<Vec<PackageSetContents>, String>),
    /// Whether the program succeeded and its exit status, or why it did not start.
    Status(Result<(bool, String), String>),
}

pub enum CleanStep {
    Call(CleanCall),
    Finish(CleanReport),
}

pub enum UndoPhase {
    /// Managed file `i`: inspect, read (rc), write (rc), remove.
    File(usize),
    FileRead(usize),
    FileWrite(usize),
    FileRemove(usize),
    /// Home rc file `k` of the four.
    Rc(usize),
    RcRead(usize),
    RcWrite(usize),
    ShellDir,
    ShellDirRemove,
    LoadSets,
    BrewNames,
    BrewCasks,
    AptRemove,
    AwakeInspect,
    AwakeRemove,
    AwakeRestart,
    StateInspect,
    StateRemove,
    Over,
}

/// A clean run in progress.
pub struct UndoRun {
    pub preview: bool,
    pub packages: bool,
    pub os: OsKind,
    pub files: Vec<String>,
    pub home: Option<String>,
    pub config_dir: Option<String>,
    pub package_sets: Vec<String>,
    pub awake_applied: bool,
    pub state_path: String,
    pub phase: UndoPhase,
    /// The path being handled and the text to write into it.
    pub target: String,
    pub new_text: String,
    /// Package names and messages of the package part, kept only when it ends well.
    pub names: Vec<String>,
    pub casks: Vec<String>,
    pub pending: Vec<String>,
    pub lines: Vec<String>,
    pub errors: Vec<String>,
}

/// The four rc files in the home directory.
pub open spec fn home_rcs() -> Seq<Seq<char>> {
    seq![".bashrc"@, ".bash_profile"@, ".zshrc"@, ".zprofile"@]
}

fn home_rc(k: usize) -> (r: &'static str)
    requires
        k < 4,
    ensures
        r@ == home_rcs()[k as int],
{
    if k == 0 {
        ".bashrc"
    } else if k == 1 {
        ".bash_profile"
    } else if k == 2 {
        ".zshrc"
    } else {
        ".zprofile"
    }
}

pub open spec fn inspects(a: CleanStep, p: Seq<char>) -> bool {
    a matches CleanStep::Call(CleanCall::Inspect(q)) && q@ == p
}

pub open spec fn reads(a: CleanStep, p: Seq<char>) -> bool {
    a matches CleanStep::Call(CleanCall::Read(q)) && q@ == p
}

pub open spec fn finished(a: CleanStep, lines: Seq<Seq<char>>, errors: Seq<Seq<char>>) -> bool {
    a matches CleanStep::Finish(r) && views(r.lines@) == lines && views(r.errors@) == errors
}

pub open spec fn run_lines(r: UndoRun) -> Seq<Seq<char>> {
    views(r.lines@)
}

pub open spec fn run_errors(r: UndoRun) -> Seq<Seq<char>> {
    views(r.errors@)
}

/// The same run, with what it was started with unchanged.
pub open spec fn same_run(a: UndoRun, b: UndoRun) -> bool {
    &&& a.preview == b.preview
    &&& a.packages == b.packages
    &&& a.os == b.os
    &&& a.files == b.files
    &&& a.home == b.home
    &&& a.config_dir == b.config_dir
    &&& a.package_sets == b.package_sets
    &&& a.awake_applied == b.awake_applied
    &&& a.state_path == b.state_path
}

pub open spec fn undo_wf(r: UndoRun) -> bool {
    &&& (r.phase matches UndoPhase::File(i) ==> i < r.files@.len())
    &&& (r.phase matches UndoPhase::FileRead(i) ==> i < r.files@.len())
    &&& (r.phase matches UndoPhase::FileWrite(i) ==> i < r.files@.len())
    &&& (r.phase matches UndoPhase::FileRemove(i) ==> i < r.files@.len())
    &&& (r.phase matches UndoPhase::Rc(k) ==> k < 4 && r.home is Some)
    &&& (r.phase matches UndoPhase::RcRead(k) ==> k < 4 && r.home is Some)
    &&& (r.phase matches UndoPhase::RcWrite(k) ==> k < 4 && r.home is Some)
    &&& (r.phase is ShellDir || r.phase is ShellDirRemove ==> r.config_dir is Some)
}

/// The path of home rc file `k`.
pub open spec fn rc_path(r: UndoRun, k: int) -> Seq<char> {
    join_path(r.home->0@, home_rcs()[k])
}

pub open spec fn shell_dir(r: UndoRun) -> Seq<char> {
    join_path(r.config_dir->0@, "shell"@)
}

/// The next stop of the run from stage `stage` and index `i`: 0 the managed
/// files, 1 the home rc files (with a home directory), 2 the shell directory
/// (with a config directory), 3 the packages (when asked and recorded), 4 the
/// stay-awake drop-in (Linux, when it was applied), 5 the manifest (not when
/// previewing), 6 the end.
pub open spec fn stop(r: UndoRun, stage: int, i: int) -> (int, int)
    decreases 7 - stage, 4 + r.files@.len() - i,
{
    if stage <= 0 {
        if 0 <= i < r.files@.len() {
            (0, i)
        } else {
            stop(r, 1, 0)
        }
    } else if stage == 1 {
        if r.home is Some && 0 <= i < 4 {
            (1, i)
        } else {
            stop(r, 2, 0)
        }
    } else if stage == 2 {
        if r.config_dir is Some {
            (2, 0)
        } else {
            stop(r, 3, 0)
        }
    } else if stage == 3 {
        if r.packages && r.package_sets@.len() > 0 {
            (3, 0)
        } else {
            stop(r, 4, 0)
        }
    } else if stage == 4 {
        if r.awake_applied && r.os == OsKind::Linux {
            (4, 0)
        } else {
            stop(r, 5, 0)
        }
    } else if stage == 5 {
        if !r.preview {
            (5, 0)
        } else {
            (6, 0)
        }
    } else {
        (6, 0)
    }
}

/// The lines of the stages passed over on the way from `stage` to the next stop.
pub open spec fn passed_lines(r: UndoRun, stage: int, i: int) -> Seq<Seq<char>>
    decreases 7 - stage, 4 + r.files@.len() - i,
{
    if stage <= 0 {
        if 0 <= i < r.files@.len() {
            seq![]
        } else {
            passed_lines(r, 1, 0)
        }
    } else if stage == 1 {
        if r.home is Some && 0 <= i < 4 {
            seq![]
        } else {
            passed_lines(r, 2, 0)
        }
    } else if stage == 2 {
        if r.config_dir is Some {
            seq![]
        } else {
            passed_lines(r, 3, 0)
        }
    } else if stage == 3 {
        if r.packages && r.package_sets@.len() > 0 {
            seq![]
        } else {
            (if r.packages {
                seq!["no package sets recorded"@]
            } else {
                seq![]
            }) + passed_lines(r, 4, 0)
        }
    } else if stage == 4 {
        if r.awake_applied && r.os == OsKind::Linux {
            seq![]
        } else {
            (if r.awake_applied {
                seq!["pmset left as-is (no recorded prior values)"@]
            } else {
                seq![]
            }) + passed_lines(r, 5, 0)
        }
    } else if stage == 5 {
        if !r.preview {
            seq![]
        } else {
            seq!["would remove state "@ + r.state_path@]
        }
    } else {
        seq![]
    }
}

/// The call (or the report) at a stop.
pub open spec fn at_stop(r: UndoRun, s: (int, int), a: CleanStep) -> bool {
    let (stage, i) = s;
    if stage == 0 {
        r.phase == UndoPhase::File(i as usize) && inspects(a, r.files@[i]@)
    } else if stage == 1 {
        r.phase == UndoPhase::Rc(i as usize) && inspects(a, rc_path(r, i))
    } else if stage == 2 {
        r.phase is ShellDir && inspects(a, shell_dir(r))
    } else if stage == 3 {
        r.phase is LoadSets && a == CleanStep::Call(CleanCall::LoadSets)
    } else if stage == 4 {
        r.phase is AwakeInspect && inspects(a, LOGIND_DROPIN_PATH@)
    } else if stage == 5 {
        r.phase is StateInspect && inspects(a, r.state_path@)
    } else {
        r.phase is Over && finished(a, run_lines(r), run_errors(r))
    }
}

/// The run moved on from `stage`, `i`: the lines of the stages passed over
/// were added, and the next stop's call (or the report) is `a`.
pub open spec fn moved_on(before: UndoRun, after: UndoRun, stage: int, i: int, a: CleanStep) -> bool {
    &&& same_run(before, after)
    &&& run_lines(after) == run_lines(before) + passed_lines(before, stage, i)
    &&& run_errors(after) == run_errors(before)
    &&& at_stop(after, stop(before, stage, i), a)
    &&& undo_wf(after)
}

proof fn lemma_stop_range(r: UndoRun, stage: int, i: int)
    ensures
        ({
            let (s, k) = stop(r, stage, i);
            &&& 0 <= s <= 6
            &&& s == 0 ==> 0 <= k < r.files@.len()
            &&& s == 1 ==> 0 <= k < 4 && r.home is Some
            &&& s == 2 ==> r.config_dir is Some
        }),
    decreases 7 - stage, 4 + r.files@.len() - i,
{
    if stage <= 0 {
        if !(0 <= i < r.files@.len()) {
            lemma_stop_range(r, 1, 0);
        }
    } else if stage == 1 {
        if !(r.home is Some && 0 <= i < 4) {
            lemma_stop_range(r, 2, 0);
        }
    } else if stage == 2 {
        if r.config_dir is None {
            lemma_stop_range(r, 3, 0);
        }
    } else if stage == 3 {
        if !(r.packages && r.package_sets@.len() > 0) {
            lemma_stop_range(r, 4, 0);
        }
    } else if stage == 4 {
        if !(r.awake_applied && r.os == OsKind::Linux) {
            lemma_stop_range(r, 5, 0);
        }
    }
}

proof fn lemma_stop_same(a: UndoRun, b: UndoRun, stage: int, i: int)
    requires
        same_run(a, b),
    ensures
        stop(a, stage, i) == stop(b, stage, i),
        passed_lines(a, stage, i) == passed_lines(b, stage, i),
    decreases 7 - stage, 4 + a.files@.len() - i,
{
    if stage <= 0 {
        if !(0 <= i < a.files@.len()) {
            lemma_stop_same(a, b, 1, 0);
        }
    } else if stage == 1 {
        if !(a.home is Some && 0 <= i < 4) {
            lemma_stop_same(a, b, 2, 0);
        }
    } else if stage == 2 {
        if a.config_dir is None {
            lemma_stop_same(a, b, 3, 0);
        }
    } else if stage == 3 {
        if !(a.packages && a.package_sets@.len() > 0) {
            lemma_stop_same(a, b, 4, 0);
        }
    } else if stage == 4 {
        if !(a.awake_applied && a.os == OsKind::Linux) {
            lemma_stop_same(a, b, 5, 0);
        }
    }
}

fn push_line(run: &mut UndoRun, line: String)
    ensures
        final(run).names == old(run).names,
        final(run).casks == old(run).casks,
        run_lines(*final(run)) == run_lines(*old(run)).push(line@),
        run_errors(*final(run)) == run_errors(*old(run)),
        same_run(*old(run), *final(run)),
        final(run).phase == old(run).phase,
{
    let ghost before = views(run.lines@);
    run.lines.push(line);
    assert(views(run.lines@) =~= before.push(line@));
}

fn push_error(run: &mut UndoRun, e: String)
    ensures
        final(run).names == old(run).names,
        final(run).casks == old(run).casks,
        run_errors(*final(run)) == run_errors(*old(run)).push(e@),
        run_lines(*final(run)) == run_lines(*old(run)),
        same_run(*old(run), *final(run)),
        final(run).phase == old(run).phase,
{
    let ghost before = views(run.errors@);
    run.errors.push(e);
    assert(views(run.errors@) =~= before.push(e@));
}

/// Moves the run on from `stage`, `i`.
fn advance(run: &mut UndoRun, stage: usize, i: usize) -> (a: CleanStep)
    requires
        stage <= 6,
        stage == 0 ==> i <= old(run).files@.len(),
        stage == 1 ==> i <= 4,
    ensures
        moved_on(*old(run), *final(run), stage as int, i as int, a),
        final(run).names == old(run).names,
        final(run).casks == old(run).casks,
    decreases 7 - stage, 4 + old(run).files@.len() - i,
{
    if stage == 0 {
        if i < run.files.len() {
            run.phase = UndoPhase::File(i);
            return CleanStep::Call(CleanCall::Inspect(owned(run.files[i].as_str())));
        }
        return advance(run, 1, 0);
    }
    if stage == 1 {
        match &run.home {
            Some(h) => {
                if i < 4 {
                    let p = join(h.as_str(), home_rc(i));
                    run.phase = UndoPhase::Rc(i);
                    return CleanStep::Call(CleanCall::Inspect(p));
                }
            },
            None => {},
        }
        return advance(run, 2, 0);
    }
    if stage == 2 {
        match &run.config_dir {
            Some(c) => {
                let p = join(c.as_str(), "shell");
                run.phase = UndoPhase::ShellDir;
                return CleanStep::Call(CleanCall::Inspect(p));
            },
            None => {},
        }
        return advance(run, 3, 0);
    }
    if stage == 3 {
        if run.packages && run.package_sets.len() > 0 {
            run.phase = UndoPhase::LoadSets;
            return CleanStep::Call(CleanCall::LoadSets);
        }
        let ghost r0 = *run;
        if run.packages {
            push_line(run, owned("no package sets recorded"));
        } else {
            assert(run_lines(*run) =~= run_lines(r0) + Seq::<Seq<char>>::empty());
        }
        let ghost r1 = *run;
        proof {
            lemma_stop_same(r0, r1, 4, 0);
        }
        let a = advance(run, 4, 0);
        proof {
            let added = run_lines(r1).subrange(run_lines(r0).len() as int, run_lines(r1).len() as int);
            assert(run_lines(r1) =~= run_lines(r0) + added);
            assert(added =~= (if r0.packages {
                seq!["no package sets recorded"@]
            } else {
                seq![]
            }));
            assert(run_lines(*run) =~= run_lines(r0) + (added + passed_lines(r0, 4, 0)));
        }
        return a;
    }
    if stage == 4 {
        let linux = match run.os {
            OsKind::Linux => true,
            OsKind::Macos => false,
        };
        if run.awake_applied && linux {
            run.phase = UndoPhase::AwakeInspect;
            return CleanStep::Call(CleanCall::Inspect(owned(LOGIND_DROPIN_PATH)));
        }
        let ghost r0 = *run;
        if run.awake_applied {
            push_line(run, owned("pmset left as-is (no recorded prior values)"));
        } else {
            assert(run_lines(*run) =~= run_lines(r0) + Seq::<Seq<char>>::empty());
        }
        let ghost r1 = *run;
        proof {
            lemma_stop_same(r0, r1, 5, 0);
        }
        let a = advance(run, 5, 0);
        proof {
            let added = run_lines(r1).subrange(run_lines(r0).len() as int, run_lines(r1).len() as int);
            assert(run_lines(r1) =~= run_lines(r0) + added);
            assert(added =~= (if r0.awake_applied {
                seq!["pmset left as-is (no recorded prior values)"@]
            } else {
                seq![]
            }));
            assert(run_lines(*run) =~= run_lines(r0) + (added + passed_lines(r0, 5, 0)));
        }
        return a;
    }
    let ghost r0 = *run;
    if stage == 5 {
        if !run.preview {
            run.phase = UndoPhase::StateInspect;
            return CleanStep::Call(CleanCall::Inspect(owned(run.state_path.as_str())));
        }
        let line = concat2("would remove state ", run.state_path.as_str());
        push_line(run, line);
    } else {
        assert(run_lines(r0) =~= run_lines(r0) + Seq::<Seq<char>>::empty());
    }
    run.phase = UndoPhase::Over;
    let lines = copy_strings(&run.lines);
    let errors = copy_strings(&run.errors);
    assert(stop(r0, stage as int, i as int) == (6int, 0int));
    assert(run_lines(*run) == run_lines(r0) + passed_lines(r0, stage as int, i as int));
    CleanStep::Finish(CleanReport { lines, errors })
}

/// Starts undoing the apply recorded in `st` (nothing to do without one):
/// `yes` removes, otherwise the run only says what it would remove;
/// `packages` also uninstalls the recorded package sets.
pub fn clean(
    st: Option<RigState>,
    home: Option<String>,
    config_dir: Option<String>,
    state_path: String,
    yes: bool,
    packages: bool,
    target_os: &str,
) -> (r: (UndoRun, CleanStep))
    ensures
        st is None ==> finished(r.1, seq!["no state — nothing to clean"@], seq![]) && r.0.phase is Over,
        st matches Some(s) ==> {
            let run = r.0;
            &&& run.preview == !yes
            &&& run.packages == packages
            &&& run.os == spec_detect_os(target_os@)
            &&& views(run.files@) == views(s.managed_files@)
            &&& run.home == home
            &&& run.config_dir == config_dir
            &&& views(run.package_sets@) == views(s.package_sets@)
            &&& run.awake_applied == spec_stay_awake_was_applied(s)
            &&& run.state_path == state_path
            &&& run_lines(run) == passed_lines(run, 0, 0)
            &&& run_errors(run) == Seq::<Seq<char>>::empty()
            &&& at_stop(run, stop(run, 0, 0), r.1)
            &&& undo_wf(run)
        },
{
    match st {
        None => {
            let mut lines: Vec<String> = Vec::new();
            lines.push(owned("no state — nothing to clean"));
            assert(views(lines@) =~= seq!["no state — nothing to clean"@]);
            let errors: Vec<String> = Vec::new();
            assert(views(errors@) =~= Seq::<Seq<char>>::empty());
            let run = UndoRun {
                preview: !yes,
                packages,
                os: detect_os_for_clean(target_os),
                files: Vec::new(),
                home,
                config_dir,
                package_sets: Vec::new(),
                awake_applied: false,
                state_path,
                phase: UndoPhase::Over,
                target: String::new(),
                new_text: String::new(),
                names: Vec::new(),
                casks: Vec::new(),
                pending: Vec::new(),
                lines: Vec::new(),
                errors: Vec::new(),
            };
            (run, CleanStep::Finish(CleanReport { lines, errors }))
        },
        Some(s) => {
            let awake = stay_awake_was_applied(&s);
            let mut run = UndoRun {
                preview: !yes,
                packages,
                os: detect_os_for_clean(target_os),
                files: copy_strings(&s.managed_files),
                home,
                config_dir,
                package_sets: copy_strings(&s.package_sets),
                awake_applied: awake,
                state_path,
                phase: UndoPhase::Over,
                target: String::new(),
                new_text: String::new(),
                names: Vec::new(),
                casks: Vec::new(),
                pending: Vec::new(),
                lines: Vec::new(),
                errors: Vec::new(),
            };
            let ghost r0 = run;
            assert(run_lines(r0) =~= Seq::<Seq<char>>::empty());
            assert(run_errors(r0) =~= Seq::<Seq<char>>::empty());
            let a = advance(&mut run, 0, 0);
            proof {
                lemma_stop_same(r0, run, 0, 0);
                assert(run_lines(run) =~= passed_lines(run, 0, 0));
            }
            (run, a)
        },
    }
}

pub open spec fn undo_answers(phase: UndoPhase, e: CleanEvent) -> bool {
    match phase {
        UndoPhase::File(_) | UndoPhase::Rc(_) | UndoPhase::ShellDir | UndoPhase::AwakeInspect
        | UndoPhase::StateInspect => e is Info,
        UndoPhase::FileRead(_) | UndoPhase::RcRead(_) => e is Text,
        UndoPhase::FileWrite(_) | UndoPhase::FileRemove(_) | UndoPhase::RcWrite(_)
        | UndoPhase::ShellDirRemove | UndoPhase::StateRemove => e is Done,
        UndoPhase::LoadSets => e is Sets,
        UndoPhase::BrewNames | UndoPhase::BrewCasks | UndoPhase::AptRemove | UndoPhase::AwakeRemove
        | UndoPhase::AwakeRestart => e is Status,
        UndoPhase::Over => false,
    }
}

/// The run went on from `stage`, `i` after adding `line` (or `error`).
pub open spec fn noted_then(o: UndoRun, f: UndoRun, a: CleanStep, line: Option<Seq<char>>, error: Option<Seq<char>>, stage: int, i: int) -> bool {
    exists|mid: UndoRun| #[trigger] same_run(o, mid) && run_lines(mid) == (match line {
        Some(l) => run_lines(o).push(l),
        None => run_lines(o),
    }) && run_errors(mid) == (match error {
        Some(e) => run_errors(o).push(e),
        None => run_errors(o),
    }) && moved_on(mid, f, stage, i, a)
}

/// What a clean run does with rc text `t` of the file at `path` once read:
/// nothing without a block; the line that it stripped it when previewing;
/// else write the stripped text (phase `write`).
pub open spec fn after_read(o: UndoRun, f: UndoRun, a: CleanStep, t: Seq<char>, path: Seq<char>, stage: int, i: int, write: UndoPhase) -> bool {
    match spec_strip_rig_block(t) {
        None => noted_then(o, f, a, None, None, stage, i + 1),
        Some(new) => if o.preview {
            noted_then(o, f, a, Some("stripped block in "@ + path), None, stage, i + 1)
        } else {
            same_run(o, f) && f.phase == write && f.target@ == path && f.new_text@ == new && run_lines(f)
                == run_lines(o) && run_errors(f) == run_errors(o) && (a matches CleanStep::Call(
                CleanCall::Write(p, c),
            ) && p@ == path && c@ == new)
        },
    }
}

proof fn lemma_noted_then_from(o: UndoRun, o2: UndoRun, f: UndoRun, a: CleanStep, line: Option<Seq<char>>, error: Option<Seq<char>>, stage: int, i: int)
    requires
        same_run(o, o2),
        run_lines(o) == run_lines(o2),
        run_errors(o) == run_errors(o2),
        noted_then(o2, f, a, line, error, stage, i),
    ensures
        noted_then(o, f, a, line, error, stage, i),
{
    let mid = choose|mid: UndoRun| #[trigger] same_run(o2, mid) && run_lines(mid) == (match line {
        Some(l) => run_lines(o2).push(l),
        None => run_lines(o2),
    }) && run_errors(mid) == (match error {
        Some(e) => run_errors(o2).push(e),
        None => run_errors(o2),
    }) && moved_on(mid, f, stage, i, a);
    assert(same_run(o, mid));
}

proof fn lemma_lines_then_from(o: UndoRun, o2: UndoRun, f: UndoRun, a: CleanStep, added: Seq<Seq<char>>, stage: int, i: int)
    requires
        same_run(o, o2),
        run_lines(o) == run_lines(o2),
        run_errors(o) == run_errors(o2),
        lines_then(o2, f, a, added, stage, i),
    ensures
        lines_then(o, f, a, added, stage, i),
{
    let mid = choose|mid: UndoRun| #[trigger] same_run(o2, mid) && run_lines(mid) == run_lines(o2) + added
        && run_errors(mid) == run_errors(o2) && moved_on(mid, f, stage, i, a);
    assert(same_run(o, mid));
}

fn note_and_advance(run: &mut UndoRun, line: Option<String>, error: Option<String>, stage: usize, i: usize) -> (a: CleanStep)
    requires
        stage <= 6,
        stage == 0 ==> i <= old(run).files@.len(),
        stage == 1 ==> i <= 4,
    ensures
        noted_then(*old(run), *final(run), a, match line {
            Some(l) => Some(l@),
            None => None,
        }, match error {
            Some(e) => Some(e@),
            None => None,
        }, stage as int, i as int),
        final(run).names == old(run).names,
        final(run).casks == old(run).casks,
{
    let ghost o = *run;
    match line {
        Some(l) => push_line(run, l),
        None => {},
    }
    match error {
        Some(e) => push_error(run, e),
        None => {},
    }
    let ghost mid = *run;
    let a = advance(run, stage, i);
    assert(same_run(o, mid));
    a
}

/// The run went on from `stage`, `i` after adding `added` to its lines.
pub open spec fn lines_then(o: UndoRun, f: UndoRun, a: CleanStep, added: Seq<Seq<char>>, stage: int, i: int) -> bool {
    exists|mid: UndoRun| #[trigger] same_run(o, mid) && run_lines(mid) == run_lines(o) + added && run_errors(mid)
        == run_errors(o) && moved_on(mid, f, stage, i, a)
}

fn lines_and_advance(run: &mut UndoRun, added: &Vec<String>, stage: usize, i: usize) -> (a: CleanStep)
    requires
        stage <= 6,
        stage == 0 ==> i <= old(run).files@.len(),
        stage == 1 ==> i <= 4,
    ensures
        lines_then(*old(run), *final(run), a, views(added@), stage as int, i as int),
        final(run).names == old(run).names,
        final(run).casks == old(run).casks,
{
    let ghost o = *run;
    let mut k: usize = 0;
    while k < added.len()
        invariant
            k <= added.len(),
            same_run(o, *run),
            run_lines(*run) == run_lines(o) + views(added@).subrange(0, k as int),
            run_errors(*run) == run_errors(o),
            run.names == o.names,
            run.casks == o.casks,
        decreases added.len() - k,
    {
        push_line(run, owned(added[k].as_str()));
        assert(views(added@).subrange(0, k + 1) =~= views(added@).subrange(0, k as int).push(added@[k as int]@));
        k = k + 1;
    }
    assert(views(added@).subrange(0, added.len() as int) =~= views(added@));
    let ghost mid = *run;
    advance(run, stage, i)
}

/// Brew's names for formulae and casks, apt's for packages.
pub open spec fn brew_names_of(sets: Seq<PackageSetContents>, names: Seq<Seq<char>>, prefix: Seq<char>) -> bool {
    strictly_sorted_lex(names) && forall|x: Seq<char>| #[trigger] names.contains(x) <==> tagged_name(
        entries_of(sets, OsKind::Macos),
        prefix,
        x,
    )
}

pub open spec fn apt_names_of(sets: Seq<PackageSetContents>, names: Seq<Seq<char>>) -> bool {
    strictly_sorted_lex(names) && forall|x: Seq<char>| #[trigger] names.contains(x) <==> entries_of(
        sets,
        OsKind::Linux,
    ).contains(x)
}

pub open spec fn runs(a: CleanStep, program: Seq<char>, args: Seq<Seq<char>>, sudo: bool, quiet: bool) -> bool {
    a matches CleanStep::Call(CleanCall::Run { program: p, args: v, sudo: s, quiet: q }) && p@ == program
        && views(v@) == args && s == sudo && q == quiet
}

fn run_call(program: &str, head: &[&str], names: &Vec<String>, tail: &[&str], sudo: bool, quiet: bool) -> (a: CleanStep)
    ensures
        runs(a, program@, head@.map_values(|s: &str| s@) + views(names@) + tail@.map_values(|s: &str| s@), sudo, quiet),
{
    let mut v = crate::apply::system::words_list(head);
    let ghost h = views(v@);
    let mut k: usize = 0;
    while k < names.len()
        invariant
            k <= names.len(),
            views(v@) == h + views(names@).subrange(0, k as int),
        decreases names.len() - k,
    {
        let ghost before = views(v@);
        v.push(owned(names[k].as_str()));
        assert(views(v@) =~= before.push(names@[k as int]@));
        assert(views(names@).subrange(0, k + 1) =~= views(names@).subrange(0, k as int).push(names@[k as int]@));
        k = k + 1;
    }
    assert(views(names@).subrange(0, names.len() as int) =~= views(names@));
    let t = crate::apply::system::words_list(tail);
    let ghost mid = views(v@);
    let mut j: usize = 0;
    while j < t.len()
        invariant
            j <= t.len(),
            views(v@) == mid + views(t@).subrange(0, j as int),
        decreases t.len() - j,
    {
        let ghost before = views(v@);
        v.push(owned(t[j].as_str()));
        assert(views(v@) =~= before.push(t@[j as int]@));
        assert(views(t@).subrange(0, j + 1) =~= views(t@).subrange(0, j as int).push(t@[j as int]@));
        j = j + 1;
    }
    assert(views(t@).subrange(0, t.len() as int) =~= views(t@));
    CleanStep::Call(CleanCall::Run { program: owned(program), args: v, sudo, quiet })
}

/// One operation further in a clean run, after `e`.
pub fn clean_step(run: &mut UndoRun, e: CleanEvent) -> (a: CleanStep)
    requires
        undo_wf(*old(run)),
        undo_answers(old(run).phase, e),
    ensures
        same_run(*old(run), *final(run)),
        undo_wf(*final(run)),
        ({
            let o = *old(run);
            let f = *final(run);
            match (o.phase, e) {
                (UndoPhase::File(i), CleanEvent::Info { exists, is_symlink, is_file, .. }) => {
                    let p = o.files@[i as int]@;
                    match spec_clean_action(exists, is_symlink, is_file, spec_is_shell_rc(file_name(p)), o.preview) {
                        CleanAction::Nothing => noted_then(o, f, a, None, None, 0, i + 1),
                        CleanAction::StripBlock => reads(a, p) && f.phase == UndoPhase::FileRead(i)
                            && run_lines(f) == run_lines(o) && run_errors(f) == run_errors(o),
                        CleanAction::WouldRemove => noted_then(o, f, a, Some("would remove "@ + p), None, 0, i + 1),
                        CleanAction::Remove => (a matches CleanStep::Call(CleanCall::RemoveFile(q)) && q@ == p)
                            && f.phase == UndoPhase::FileRemove(i) && run_lines(f) == run_lines(o)
                            && run_errors(f) == run_errors(o),
                        CleanAction::SkipNonFile => noted_then(o, f, a, Some("skip non-file "@ + p), None, 0, i + 1),
                    }
                },
                (UndoPhase::FileRead(i), CleanEvent::Text(Ok(t))) => after_read(
                    o,
                    f,
                    a,
                    t@,
                    o.files@[i as int]@,
                    0,
                    i as int,
                    UndoPhase::FileWrite(i),
                ),
                (UndoPhase::FileRead(i), CleanEvent::Text(Err(err))) => noted_then(
                    o,
                    f,
                    a,
                    None,
                    Some(o.files@[i as int]@ + ": io error: "@ + err@),
                    0,
                    i + 1,
                ),
                (UndoPhase::FileWrite(i), CleanEvent::Done(Ok(()))) => noted_then(
                    o,
                    f,
                    a,
                    Some("stripped block in "@ + o.files@[i as int]@),
                    None,
                    0,
                    i + 1,
                ),
                (UndoPhase::FileWrite(i), CleanEvent::Done(Err(err))) => noted_then(
                    o,
                    f,
                    a,
                    None,
                    Some(o.files@[i as int]@ + ": io error: "@ + err@),
                    0,
                    i + 1,
                ),
                (UndoPhase::FileRemove(i), CleanEvent::Done(Ok(()))) => noted_then(
                    o,
                    f,
                    a,
                    Some("removed "@ + o.files@[i as int]@),
                    None,
                    0,
                    i + 1,
                ),
                (UndoPhase::FileRemove(i), CleanEvent::Done(Err(err))) => noted_then(
                    o,
                    f,
                    a,
                    None,
                    Some(o.files@[i as int]@ + ": io error: "@ + err@),
                    0,
                    i + 1,
                ),
                (UndoPhase::Rc(k), CleanEvent::Info { is_file, .. }) => if is_file {
                    reads(a, rc_path(o, k as int)) && f.phase == UndoPhase::RcRead(k) && run_lines(f) == run_lines(o)
                        && run_errors(f) == run_errors(o)
                } else {
                    noted_then(o, f, a, None, None, 1, k + 1)
                },
                (UndoPhase::RcRead(k), CleanEvent::Text(Ok(t))) => after_read(
                    o,
                    f,
                    a,
                    t@,
                    rc_path(o, k as int),
                    1,
                    k as int,
                    UndoPhase::RcWrite(k),
                ),
                (UndoPhase::RcRead(k), CleanEvent::Text(Err(err))) => noted_then(
                    o,
                    f,
                    a,
                    None,
                    Some(rc_path(o, k as int) + ": io error: "@ + err@),
                    1,
                    k + 1,
                ),
                (UndoPhase::RcWrite(k), CleanEvent::Done(Ok(()))) => noted_then(
                    o,
                    f,
                    a,
                    Some("stripped block in "@ + rc_path(o, k as int)),
                    None,
                    1,
                    k + 1,
                ),
                (UndoPhase::RcWrite(k), CleanEvent::Done(Err(err))) => noted_then(
                    o,
                    f,
                    a,
                    None,
                    Some(rc_path(o, k as int) + ": io error: "@ + err@),
                    1,
                    k + 1,
                ),
                (UndoPhase::ShellDir, CleanEvent::Info { is_dir, .. }) => if !is_dir {
                    noted_then(o, f, a, None, None, 3, 0)
                } else if o.preview {
                    noted_then(o, f, a, Some("would remove "@ + shell_dir(o)), None, 3, 0)
                } else {
                    (a matches CleanStep::Call(CleanCall::RemoveDir(q)) && q@ == shell_dir(o)) && f.phase
                        is ShellDirRemove && run_lines(f) == run_lines(o) && run_errors(f) == run_errors(o)
                },
                (UndoPhase::ShellDirRemove, CleanEvent::Done(Ok(()))) => noted_then(
                    o,
                    f,
                    a,
                    Some("removed "@ + shell_dir(o)),
                    None,
                    3,
                    0,
                ),
                (UndoPhase::ShellDirRemove, CleanEvent::Done(Err(err))) => noted_then(
                    o,
                    f,
                    a,
                    None,
                    Some(shell_dir(o) + ": "@ + err@),
                    3,
                    0,
                ),
                (UndoPhase::LoadSets, CleanEvent::Sets(Err(err))) => noted_then(o, f, a, None, Some(err@), 4, 0),
                (UndoPhase::LoadSets, CleanEvent::Sets(Ok(sets))) => if o.os == OsKind::Macos {
                    let names = views(f.names@);
                    let casks = views(f.casks@);
                    &&& brew_names_of(sets@, names, "brew:"@)
                    &&& brew_names_of(sets@, casks, "cask:"@)
                    &&& if names.len() == 0 && casks.len() == 0 {
                        noted_then(o, f, a, Some("brew: no formulas in recorded sets"@), None, 4, 0)
                    } else if o.preview {
                        lines_then(o, f, a, (if names.len() > 0 {
                            seq!["would brew uninstall "@ + join_text(names, " "@)]
                        } else {
                            seq![]
                        }) + (if casks.len() > 0 {
                            seq!["would brew uninstall --cask "@ + join_text(casks, " "@)]
                        } else {
                            seq![]
                        }), 4, 0)
                    } else if names.len() > 0 {
                        runs(a, "brew"@, seq!["uninstall"@] + names + seq!["--ignore-dependencies"@], false, true)
                            && f.phase is BrewNames && f.pending@.len() == 0 && run_lines(f) == run_lines(o)
                            && run_errors(f) == run_errors(o)
                    } else {
                        runs(a, "brew"@, seq!["uninstall"@, "--cask"@] + casks, false, true) && f.phase is BrewCasks
                            && f.pending@.len() == 0 && run_lines(f) == run_lines(o) && run_errors(f) == run_errors(o)
                    }
                } else {
                    let pkgs = views(f.names@);
                    &&& apt_names_of(sets@, pkgs)
                    &&& if pkgs.len() == 0 {
                        noted_then(o, f, a, Some("apt: no packages in recorded sets"@), None, 4, 0)
                    } else if o.preview {
                        noted_then(o, f, a, Some("would apt-get remove "@ + join_text(pkgs, " "@)), None, 4, 0)
                    } else {
                        runs(a, "apt-get"@, seq!["remove"@, "-y"@] + pkgs, true, false) && f.phase is AptRemove
                            && run_lines(f) == run_lines(o) && run_errors(f) == run_errors(o)
                    }
                },
                (UndoPhase::BrewNames, CleanEvent::Status(Ok((ok, st)))) => {
                    let line = if ok {
                        "brew uninstall "@ + join_text(views(o.names@), " "@)
                    } else {
                        "brew uninstall partial/failed ("@ + st@ + ")"@
                    };
                    if o.casks@.len() > 0 {
                        runs(a, "brew"@, seq!["uninstall"@, "--cask"@] + views(o.casks@), false, true) && f.phase
                            is BrewCasks && views(f.pending@) == views(o.pending@).push(line) && f.casks == o.casks
                            && run_lines(f) == run_lines(o) && run_errors(f) == run_errors(o)
                    } else {
                        lines_then(o, f, a, views(o.pending@).push(line), 4, 0)
                    }
                },
                (UndoPhase::BrewCasks, CleanEvent::Status(Ok((ok, st)))) => lines_then(
                    o,
                    f,
                    a,
                    views(o.pending@).push(if ok {
                        "brew uninstall --cask "@ + join_text(views(o.casks@), " "@)
                    } else {
                        "brew cask uninstall partial/failed ("@ + st@ + ")"@
                    }),
                    4,
                    0,
                ),
                (UndoPhase::AptRemove, CleanEvent::Status(Ok((ok, st)))) => noted_then(
                    o,
                    f,
                    a,
                    Some(if ok {
                        "apt-get remove "@ + join_text(views(o.names@), " "@)
                    } else {
                        "apt-get remove failed ("@ + st@ + ")"@
                    }),
                    None,
                    4,
                    0,
                ),
                (UndoPhase::BrewNames, CleanEvent::Status(Err(err))) | (
                    UndoPhase::BrewCasks,
                    CleanEvent::Status(Err(err)),
                ) | (UndoPhase::AptRemove, CleanEvent::Status(Err(err))) => noted_then(
                    o,
                    f,
                    a,
                    None,
                    Some("io error: "@ + err@),
                    4,
                    0,
                ),
                (UndoPhase::AwakeInspect, CleanEvent::Info { is_file, .. }) => if !is_file {
                    noted_then(o, f, a, None, None, 5, 0)
                } else if o.preview {
                    noted_then(o, f, a, Some("would remove "@ + LOGIND_DROPIN_PATH@), None, 5, 0)
                } else {
                    runs(a, "rm"@, seq!["-f"@, LOGIND_DROPIN_PATH@], true, false) && f.phase is AwakeRemove
                        && run_lines(f) == run_lines(o) && run_errors(f) == run_errors(o)
                },
                (UndoPhase::AwakeRemove, CleanEvent::Status(Ok((ok, st)))) => if ok {
                    runs(a, "systemctl"@, seq!["restart"@, "systemd-logind"@], true, true) && f.phase is AwakeRestart
                        && run_lines(f) == run_lines(o) && run_errors(f) == run_errors(o)
                } else {
                    noted_then(o, f, a, None, Some("stay-awake: rm "@ + LOGIND_DROPIN_PATH@ + " failed ("@ + st@ + ")"@), 5, 0)
                },
                (UndoPhase::AwakeRemove, CleanEvent::Status(Err(err))) => noted_then(
                    o,
                    f,
                    a,
                    None,
                    Some("stay-awake: io error: "@ + err@),
                    5,
                    0,
                ),
                (UndoPhase::AwakeRestart, CleanEvent::Status(_)) => noted_then(
                    o,
                    f,
                    a,
                    Some("removed "@ + LOGIND_DROPIN_PATH@),
                    None,
                    5,
                    0,
                ),
                (UndoPhase::StateInspect, CleanEvent::Info { is_file, .. }) => if is_file {
                    (a matches CleanStep::Call(CleanCall::RemoveFile(q)) && q@ == o.state_path@) && f.phase
                        is StateRemove && run_lines(f) == run_lines(o) && run_errors(f) == run_errors(o)
                } else {
                    noted_then(o, f, a, None, None, 6, 0)
                },
                (UndoPhase::StateRemove, CleanEvent::Done(Ok(()))) => noted_then(
                    o,
                    f,
                    a,
                    Some("removed state "@ + o.state_path@),
                    None,
                    6,
                    0,
                ),
                (UndoPhase::StateRemove, CleanEvent::Done(Err(err))) => noted_then(
                    o,
                    f,
                    a,
                    None,
                    Some("state: "@ + err@),
                    6,
                    0,
                ),
                _ => true,
            }
        }),
{
    let ghost o = *run;
    match run.phase {
        UndoPhase::File(i) => {
            let n = run.files.len();
            assert(i < n);
            let p = owned(run.files[i].as_str());
            match e {
                CleanEvent::Info { exists, is_symlink, is_file, .. } => {
                    let name = crate::schema::file_name_of(p.as_str());
                    let act = clean_action(exists, is_symlink, is_file, is_shell_rc(name.as_str()), run.preview);
                    match act {
                        CleanAction::Nothing => note_and_advance(run, None, None, 0, i + 1),
                        CleanAction::StripBlock => {
                            run.phase = UndoPhase::FileRead(i);
                            run.target = owned(p.as_str());
                            CleanStep::Call(CleanCall::Read(p))
                        },
                        CleanAction::WouldRemove => {
                            let l = concat2("would remove ", p.as_str());
                            note_and_advance(run, Some(l), None, 0, i + 1)
                        },
                        CleanAction::Remove => {
                            run.phase = UndoPhase::FileRemove(i);
                            CleanStep::Call(CleanCall::RemoveFile(p))
                        },
                        CleanAction::SkipNonFile => {
                            let l = concat2("skip non-file ", p.as_str());
                            note_and_advance(run, Some(l), None, 0, i + 1)
                        },
                    }
                },
                _ => CleanStep::Finish(CleanReport { lines: Vec::new(), errors: Vec::new() }),
            }
        },
        UndoPhase::FileRead(i) | UndoPhase::RcRead(i) => {
            let (path, stage, write) = match run.phase {
                UndoPhase::FileRead(_) => {
                    let n = run.files.len();
                    assert(i < n);
                    (owned(run.files[i].as_str()), 0usize, UndoPhase::FileWrite(i))
                },
                _ => {
                    let h = match &run.home {
                        Some(h) => owned(h.as_str()),
                        None => String::new(),
                    };
                    (join(h.as_str(), home_rc(i)), 1usize, UndoPhase::RcWrite(i))
                },
            };
            match e {
                CleanEvent::Text(Ok(t)) => {
                    match strip_rig_block(t.as_str()) {
                        None => note_and_advance(run, None, None, stage, i + 1),
                        Some(new) => {
                            if run.preview {
                                let l = concat2("stripped block in ", path.as_str());
                                note_and_advance(run, Some(l), None, stage, i + 1)
                            } else {
                                run.phase = write;
                                run.target = owned(path.as_str());
                                run.new_text = owned(new.as_str());
                                CleanStep::Call(CleanCall::Write(path, new))
                            }
                        },
                    }
                },
                CleanEvent::Text(Err(err)) => {
                    let mut m = concat2(path.as_str(), ": io error: ");
                    push_str(&mut m, err.as_str());
                    note_and_advance(run, None, Some(m), stage, i + 1)
                },
                _ => CleanStep::Finish(CleanReport { lines: Vec::new(), errors: Vec::new() }),
            }
        },
        UndoPhase::FileWrite(i) | UndoPhase::FileRemove(i) | UndoPhase::RcWrite(i) => {
            let (path, stage, ok_word) = match run.phase {
                UndoPhase::FileWrite(_) => {
                    let n = run.files.len();
                    assert(i < n);
                    (owned(run.files[i].as_str()), 0usize, "stripped block in ")
                },
                UndoPhase::FileRemove(_) => {
                    let n = run.files.len();
                    assert(i < n);
                    (owned(run.files[i].as_str()), 0usize, "removed ")
                },
                _ => {
                    let h = match &run.home {
                        Some(h) => owned(h.as_str()),
                        None => String::new(),
                    };
                    (join(h.as_str(), home_rc(i)), 1usize, "stripped block in ")
                },
            };
            match e {
                CleanEvent::Done(Ok(())) => {
                    let l = concat2(ok_word, path.as_str());
                    note_and_advance(run, Some(l), None, stage, i + 1)
                },
                CleanEvent::Done(Err(err)) => {
                    let mut m = concat2(path.as_str(), ": io error: ");
                    push_str(&mut m, err.as_str());
                    note_and_advance(run, None, Some(m), stage, i + 1)
                },
                _ => CleanStep::Finish(CleanReport { lines: Vec::new(), errors: Vec::new() }),
            }
        },
        UndoPhase::Rc(k) => {
            let h = match &run.home {
                Some(h) => owned(h.as_str()),
                None => String::new(),
            };
            let path = join(h.as_str(), home_rc(k));
            match e {
                CleanEvent::Info { is_file, .. } => {
                    if is_file {
                        run.phase = UndoPhase::RcRead(k);
                        run.target = owned(path.as_str());
                        CleanStep::Call(CleanCall::Read(path))
                    } else {
                        note_and_advance(run, None, None, 1, k + 1)
                    }
                },
                _ => CleanStep::Finish(CleanReport { lines: Vec::new(), errors: Vec::new() }),
            }
        },
        UndoPhase::ShellDir | UndoPhase::ShellDirRemove => {
            let c = match &run.config_dir {
                Some(c) => owned(c.as_str()),
                None => String::new(),
            };
            let dir = join(c.as_str(), "shell");
            match e {
                CleanEvent::Info { is_dir, .. } => {
                    if !is_dir {
                        note_and_advance(run, None, None, 3, 0)
                    } else if run.preview {
                        let l = concat2("would remove ", dir.as_str());
                        note_and_advance(run, Some(l), None, 3, 0)
                    } else {
                        run.phase = UndoPhase::ShellDirRemove;
                        CleanStep::Call(CleanCall::RemoveDir(dir))
                    }
                },
                CleanEvent::Done(Ok(())) => {
                    let l = concat2("removed ", dir.as_str());
                    note_and_advance(run, Some(l), None, 3, 0)
                },
                CleanEvent::Done(Err(err)) => {
                    let m = concat3(dir.as_str(), ": ", err.as_str());
                    note_and_advance(run, None, Some(m), 3, 0)
                },
                _ => CleanStep::Finish(CleanReport { lines: Vec::new(), errors: Vec::new() }),
            }
        },
        UndoPhase::LoadSets => {
            match e {
                CleanEvent::Sets(Err(err)) => note_and_advance(run, None, Some(err), 4, 0),
                CleanEvent::Sets(Ok(sets)) => {
                    match run.os {
                        OsKind::Macos => {
                            let entries = entries_for_os(sets.as_slice(), OsKind::Macos);
                            let (names, casks) = brew_formula_names(entries.as_slice());
                            let nn = names.len();
                            let nc = casks.len();
                            run.names = names;
                            run.casks = casks;
                            run.pending = Vec::new();
                            let ghost o2 = *run;
                            if nn == 0 && nc == 0 {
                                let a = note_and_advance(run, Some(owned("brew: no formulas in recorded sets")), None, 4, 0);
                                proof {
                                    lemma_noted_then_from(o, o2, *run, a, Some("brew: no formulas in recorded sets"@), None, 4, 0);
                                }
                                a
                            } else if run.preview {
                                let mut added: Vec<String> = Vec::new();
                                if nn > 0 {
                                    let j = join_strings(run.names.as_slice(), " ");
                                    added.push(concat2("would brew uninstall ", j.as_str()));
                                }
                                let ghost first = views(added@);
                                if nc > 0 {
                                    let j = join_strings(run.casks.as_slice(), " ");
                                    added.push(concat2("would brew uninstall --cask ", j.as_str()));
                                }
                                assert(views(added@) =~= (if nn > 0 {
                                    seq!["would brew uninstall "@ + join_text(views(run.names@), " "@)]
                                } else {
                                    seq![]
                                }) + (if nc > 0 {
                                    seq!["would brew uninstall --cask "@ + join_text(views(run.casks@), " "@)]
                                } else {
                                    seq![]
                                }));
                                let a = lines_and_advance(run, &added, 4, 0);
                                proof {
                                    lemma_lines_then_from(o, o2, *run, a, views(added@), 4, 0);
                                }
                                a
                            } else if nn > 0 {
                                run.phase = UndoPhase::BrewNames;
                                let h = ["uninstall"];
                                let t = ["--ignore-dependencies"];
                                assert(h@.map_values(|s: &str| s@) =~= seq!["uninstall"@]);
                                assert(t@.map_values(|s: &str| s@) =~= seq!["--ignore-dependencies"@]);
                                run_call("brew", &h, &run.names, &t, false, true)
                            } else {
                                run.phase = UndoPhase::BrewCasks;
                                let h = ["uninstall", "--cask"];
                                let t: [&str; 0] = [];
                                assert(h@.map_values(|s: &str| s@) =~= seq!["uninstall"@, "--cask"@]);
                                assert(t@.map_values(|s: &str| s@) =~= Seq::<Seq<char>>::empty());
                                let a = run_call("brew", &h, &run.casks, &t, false, true);
                                assert(seq!["uninstall"@, "--cask"@] + views(run.casks@) + Seq::<Seq<char>>::empty() =~= seq!["uninstall"@, "--cask"@] + views(run.casks@));
                                a
                            }
                        },
                        OsKind::Linux => {
                            let pkgs = apt_packages(sets.as_slice());
                            let np = pkgs.len();
                            run.names = pkgs;
                            let ghost o2 = *run;
                            if np == 0 {
                                let a = note_and_advance(run, Some(owned("apt: no packages in recorded sets")), None, 4, 0);
                                proof {
                                    lemma_noted_then_from(o, o2, *run, a, Some("apt: no packages in recorded sets"@), None, 4, 0);
                                }
                                a
                            } else if run.preview {
                                let j = join_strings(run.names.as_slice(), " ");
                                let l = concat2("would apt-get remove ", j.as_str());
                                let ghost lv = l@;
                                let a = note_and_advance(run, Some(l), None, 4, 0);
                                proof {
                                    lemma_noted_then_from(o, o2, *run, a, Some(lv), None, 4, 0);
                                }
                                a
                            } else {
                                run.phase = UndoPhase::AptRemove;
                                let h = ["remove", "-y"];
                                let t: [&str; 0] = [];
                                assert(h@.map_values(|s: &str| s@) =~= seq!["remove"@, "-y"@]);
                                assert(t@.map_values(|s: &str| s@) =~= Seq::<Seq<char>>::empty());
                                let a = run_call("apt-get", &h, &run.names, &t, true, false);
                                assert(seq!["remove"@, "-y"@] + views(run.names@) + Seq::<Seq<char>>::empty() =~= seq!["remove"@, "-y"@] + views(run.names@));
                                a
                            }
                        },
                    }
                },
                _ => CleanStep::Finish(CleanReport { lines: Vec::new(), errors: Vec::new() }),
            }
        },
        UndoPhase::BrewNames | UndoPhase::BrewCasks | UndoPhase::AptRemove => {
            match e {
                CleanEvent::Status(Err(err)) => {
                    let m = concat2("io error: ", err.as_str());
                    note_and_advance(run, None, Some(m), 4, 0)
                },
                CleanEvent::Status(Ok((ok, st))) => {
                    match run.phase {
                        UndoPhase::BrewNames => {
                            let line = if ok {
                                let j = join_strings(run.names.as_slice(), " ");
                                concat2("brew uninstall ", j.as_str())
                            } else {
                                concat3("brew uninstall partial/failed (", st.as_str(), ")")
                            };
                            let ghost pb = views(run.pending@);
                            run.pending.push(line);
                            assert(views(run.pending@) =~= pb.push(if ok {
                                "brew uninstall "@ + join_text(views(run.names@), " "@)
                            } else {
                                "brew uninstall partial/failed ("@ + st@ + ")"@
                            }));
                            if run.casks.len() > 0 {
                                run.phase = UndoPhase::BrewCasks;
                                let h = ["uninstall", "--cask"];
                                let t: [&str; 0] = [];
                                assert(h@.map_values(|s: &str| s@) =~= seq!["uninstall"@, "--cask"@]);
                                assert(t@.map_values(|s: &str| s@) =~= Seq::<Seq<char>>::empty());
                                let a = run_call("brew", &h, &run.casks, &t, false, true);
                                assert(seq!["uninstall"@, "--cask"@] + views(run.casks@) + Seq::<Seq<char>>::empty() =~= seq!["uninstall"@, "--cask"@] + views(run.casks@));
                                a
                            } else {
                                let pending = copy_strings(&run.pending);
                                let ghost o2 = *run;
                                let a = lines_and_advance(run, &pending, 4, 0);
                                proof {
                                    lemma_lines_then_from(o, o2, *run, a, views(pending@), 4, 0);
                                }
                                a
                            }
                        },
                        UndoPhase::BrewCasks => {
                            let line = if ok {
                                let j = join_strings(run.casks.as_slice(), " ");
                                concat2("brew uninstall --cask ", j.as_str())
                            } else {
                                concat3("brew cask uninstall partial/failed (", st.as_str(), ")")
                            };
                            let mut pending = copy_strings(&run.pending);
                            let ghost pb = views(pending@);
                            pending.push(line);
                            assert(views(pending@) =~= pb.push(if ok {
                                "brew uninstall --cask "@ + join_text(views(run.casks@), " "@)
                            } else {
                                "brew cask uninstall partial/failed ("@ + st@ + ")"@
                            }));
                            lines_and_advance(run, &pending, 4, 0)
                        },
                        _ => {
                            let l = if ok {
                                let j = join_strings(run.names.as_slice(), " ");
                                concat2("apt-get remove ", j.as_str())
                            } else {
                                concat3("apt-get remove failed (", st.as_str(), ")")
                            };
                            note_and_advance(run, Some(l), None, 4, 0)
                        },
                    }
                },
                _ => CleanStep::Finish(CleanReport { lines: Vec::new(), errors: Vec::new() }),
            }
        },
        UndoPhase::AwakeInspect | UndoPhase::AwakeRemove | UndoPhase::AwakeRestart => {
            match (&run.phase, e) {
                (UndoPhase::AwakeInspect, CleanEvent::Info { is_file, .. }) => {
                    if !is_file {
                        note_and_advance(run, None, None, 5, 0)
                    } else if run.preview {
                        let l = concat2("would remove ", LOGIND_DROPIN_PATH);
                        note_and_advance(run, Some(l), None, 5, 0)
                    } else {
                        run.phase = UndoPhase::AwakeRemove;
                        let none: Vec<String> = Vec::new();
                        let h = ["-f", LOGIND_DROPIN_PATH];
                        let t: [&str; 0] = [];
                        assert(h@.map_values(|s: &str| s@) =~= seq!["-f"@, LOGIND_DROPIN_PATH@]);
                        assert(t@.map_values(|s: &str| s@) =~= Seq::<Seq<char>>::empty());
                        let a = run_call("rm", &h, &none, &t, true, false);
                        assert(views(none@) =~= Seq::<Seq<char>>::empty());
                        assert(seq!["-f"@, LOGIND_DROPIN_PATH@] + Seq::<Seq<char>>::empty() + Seq::<Seq<char>>::empty() =~= seq!["-f"@, LOGIND_DROPIN_PATH@]);
                        a
                    }
                },
                (UndoPhase::AwakeRemove, CleanEvent::Status(Ok((ok, st)))) => {
                    if ok {
                        run.phase = UndoPhase::AwakeRestart;
                        let none: Vec<String> = Vec::new();
                        let h = ["restart", "systemd-logind"];
                        let t: [&str; 0] = [];
                        assert(h@.map_values(|s: &str| s@) =~= seq!["restart"@, "systemd-logind"@]);
                        assert(t@.map_values(|s: &str| s@) =~= Seq::<Seq<char>>::empty());
                        let a = run_call("systemctl", &h, &none, &t, true, true);
                        assert(views(none@) =~= Seq::<Seq<char>>::empty());
                        assert(seq!["restart"@, "systemd-logind"@] + Seq::<Seq<char>>::empty() + Seq::<Seq<char>>::empty() =~= seq!["restart"@, "systemd-logind"@]);
                        a
                    } else {
                        let mut m = concat3("stay-awake: rm ", LOGIND_DROPIN_PATH, " failed (");
                        push_str(&mut m, st.as_str());
                        push_str(&mut m, ")");
                        note_and_advance(run, None, Some(m), 5, 0)
                    }
                },
                (UndoPhase::AwakeRemove, CleanEvent::Status(Err(err))) => {
                    let m = concat2("stay-awake: io error: ", err.as_str());
                    note_and_advance(run, None, Some(m), 5, 0)
                },
                (UndoPhase::AwakeRestart, CleanEvent::Status(_)) => {
                    let l = concat2("removed ", LOGIND_DROPIN_PATH);
                    note_and_advance(run, Some(l), None, 5, 0)
                },
                _ => CleanStep::Finish(CleanReport { lines: Vec::new(), errors: Vec::new() }),
            }
        },
        UndoPhase::StateInspect | UndoPhase::StateRemove => {
            match e {
                CleanEvent::Info { is_file, .. } => {
                    if is_file {
                        run.phase = UndoPhase::StateRemove;
                        CleanStep::Call(CleanCall::RemoveFile(owned(run.state_path.as_str())))
                    } else {
                        note_and_advance(run, None, None, 6, 0)
                    }
                },
                CleanEvent::Done(Ok(())) => {
                    let l = concat2("removed state ", run.state_path.as_str());
                    note_and_advance(run, Some(l), None, 6, 0)
                },
                CleanEvent::Done(Err(err)) => {
                    let m = concat2("state: ", err.as_str());
                    note_and_advance(run, None, Some(m), 6, 0)
                },
                _ => CleanStep::Finish(CleanReport { lines: Vec::new(), errors: Vec::new() }),
            }
        },
        UndoPhase::Over => CleanStep::Finish(CleanReport { lines: Vec::new(), errors: Vec::new() }),
    }
}

} // verus!
