//! Package steps: how brew and apt output lines are shown, durations, and the
//! report of a package run.
use vstd::prelude::*;
use crate::ui::{kv_line, dim_line};
use crate::text::{
    chars_of, concat2, concat3, contains_chars, contains_text, copy_range, decimal, decimal_string,
    is_ascii_alpha, join as join_text, join_strings, lines, lines_of, lower_ascii, lower_ascii_chars,
    owned, push_str, starts_with, starts_with_chars, string_of, trim, trim_chars, views,
};
use crate::apply::clean::{apt_packages, entries_of};
use crate::apply::plan::copy_strings;
use crate::order::strictly_sorted_lex;
use crate::packages::{
    brewfile_path, counts_for_os, spec_packages_for_os, extras_sorted, is_extra, recommended, recommended_for_os, PackageSetContents,
};
use crate::paths::join_path;
use crate::schema::OsKind;
use crate::ui::{item, kv, kvc, note, spec_field_line, spec_tidy, Style, DIM, YELLOW};

verus! {

/// The result of installing the package sets.
pub struct PackageReport {
    pub backend: &'static str,
    pub sets: Vec<String>,
    pub ok: bool,
    pub detail: String,
}

/// How one line of brew or apt output is shown.
#[derive(Debug, PartialEq, Eq)]
pub enum BrewShow {
    /// Not shown.
    Skip,
    /// Counted as already installed.
    Already,
    /// Shown as progress.
    Progress(String),
    /// Shown as a line of its own.
    Line(String),
}

/// A shown line as values.
pub enum ShowView {
    Skip,
    Already,
    Progress(Seq<char>),
    Line(Seq<char>),
}

impl View for BrewShow {
    type V = ShowView;

    open spec fn view(&self) -> ShowView {
        match self {
            BrewShow::Skip => ShowView::Skip,
            BrewShow::Already => ShowView::Already,
            BrewShow::Progress(s) => ShowView::Progress(s@),
            BrewShow::Line(s) => ShowView::Line(s@),
        }
    }
}

pub open spec fn is_escape(c: char) -> bool {
    c == '\u{1b}'
}

/// Text with ANSI escapes removed, from index `i`; `in_csi` is set inside an
/// `ESC [` sequence, which ends after its first ASCII letter.
pub open spec fn strip_ansi_acc(s: Seq<char>, i: int, in_csi: bool) -> Seq<char>
    decreases s.len() - i,
{
    if i < 0 || i >= s.len() {
        seq![]
    } else if in_csi {
        if is_ascii_alpha(s[i]) {
            strip_ansi_acc(s, i + 1, false)
        } else {
            strip_ansi_acc(s, i + 1, true)
        }
    } else if is_escape(s[i]) {
        if i + 1 < s.len() && s[i + 1] == '[' {
            strip_ansi_acc(s, i + 2, true)
        } else {
            strip_ansi_acc(s, i + 1, false)
        }
    } else {
        seq![s[i]] + strip_ansi_acc(s, i + 1, false)
    }
}

/// Text without ANSI escape sequences: a bare `ESC` is dropped, and
/// `ESC [ ... letter` is dropped through its first ASCII letter.
pub open spec fn spec_strip_ansi(s: Seq<char>) -> Seq<char> {
    strip_ansi_acc(s, 0, false)
}

pub fn strip_ansi(s: &[char]) -> (out: Vec<char>)
    ensures
        out@ == spec_strip_ansi(s@),
{
    let mut out: Vec<char> = Vec::new();
    let mut i: usize = 0;
    let mut in_csi = false;
    while i < s.len()
        invariant
            i <= s.len(),
            out@ + strip_ansi_acc(s@, i as int, in_csi) == spec_strip_ansi(s@),
        decreases s.len() - i,
    {
        let c = s[i];
        if in_csi {
            if ('A' <= c && c <= 'Z') || ('a' <= c && c <= 'z') {
                in_csi = false;
            }
            i = i + 1;
        } else if c == '\u{1b}' {
            if i + 1 < s.len() && s[i + 1] == '[' {
                in_csi = true;
                i = i + 2;
            } else {
                i = i + 1;
            }
        } else {
            let ghost before = out@;
            out.push(c);
            assert(out@ =~= before + seq![c]);
            i = i + 1;
        }
    }
    assert(out@ =~= out@ + strip_ansi_acc(s@, i as int, in_csi));
    out
}

/// How a line of `apt-get install` output is shown.
pub open spec fn spec_restyle_apt_line(raw: Seq<char>) -> ShowView {
    let line = trim(spec_strip_ansi(raw));
    let lower = lower_ascii(line);
    if line.len() == 0 {
        ShowView::Skip
    } else if contains_text(lower, "already the newest"@) || contains_text(lower, "already installed"@) {
        ShowView::Already
    } else if starts_with(lower, "e:"@) || starts_with(lower, "err:"@) || starts_with(lower, "error"@)
        || contains_text(lower, "unable to"@) {
        ShowView::Line(line)
    } else if starts_with(lower, "get:"@) || starts_with(lower, "unpacking"@) || starts_with(
        lower,
        "setting up"@,
    ) {
        ShowView::Progress(line)
    } else {
        ShowView::Skip
    }
}

fn has(s: &Vec<char>, p: &str) -> (b: bool)
    ensures
        b == contains_text(s@, p@),
{
    let v = chars_of(p);
    contains_chars(s.as_slice(), v.as_slice())
}

fn begins(s: &Vec<char>, p: &str) -> (b: bool)
    ensures
        b == starts_with(s@, p@),
{
    let v = chars_of(p);
    starts_with_chars(s.as_slice(), v.as_slice())
}

/// How a line of `apt-get install` output is shown: newest/installed notes
/// count as already there, errors show, fetch/unpack/setup lines are
/// progress, the rest is hidden.
pub fn restyle_apt_line(raw: &str) -> (r: BrewShow)
    ensures
        r@ == spec_restyle_apt_line(raw@),
{
    let v = chars_of(raw);
    let s = strip_ansi(v.as_slice());
    let line = trim_chars(s.as_slice());
    let lower = lower_ascii_chars(line.as_slice());
    if line.len() == 0 {
        return BrewShow::Skip;
    }
    if has(&lower, "already the newest") || has(&lower, "already installed") {
        return BrewShow::Already;
    }
    if begins(&lower, "e:") || begins(&lower, "err:") || begins(&lower, "error") || has(&lower, "unable to") {
        return BrewShow::Line(string_of(line.as_slice()));
    }
    if begins(&lower, "get:") || begins(&lower, "unpacking") || begins(&lower, "setting up") {
        return BrewShow::Progress(string_of(line.as_slice()));
    }
    BrewShow::Skip
}

/// How a line of `brew bundle` output is shown.
pub open spec fn spec_restyle_brew_line(raw: Seq<char>) -> ShowView {
    let line = trim(spec_strip_ansi(raw));
    let lower = lower_ascii(line);
    if line.len() == 0 {
        ShowView::Skip
    } else if contains_text(lower, "brewfile dependencies"@) || contains_text(lower, "`brew bundle` complete"@)
        || contains_text(lower, "circular dependency"@) {
        ShowView::Skip
    } else if starts_with(line, "Using "@) {
        ShowView::Already
    } else if starts_with(line, "Installing "@) {
        ShowView::Progress("install  "@ + trim(line.subrange("Installing "@.len() as int, line.len() as int)))
    } else if starts_with(line, "==> "@) {
        let rest = line.subrange("==> "@.len() as int, line.len() as int);
        if starts_with(lower_ascii(rest), "pouring"@) {
            ShowView::Skip
        } else {
            ShowView::Progress(rest)
        }
    } else if starts_with(lower, "warning"@) {
        ShowView::Skip
    } else if starts_with(lower, "error"@) || starts_with(lower, "fatal"@) {
        ShowView::Line(line)
    } else {
        ShowView::Skip
    }
}

/// How a line of `brew bundle` output is shown: summaries and warnings are
/// hidden, `Using` counts as already installed, installs and `==>` steps are
/// progress (pouring hidden), errors show.
pub fn restyle_brew_line(raw: &str) -> (r: BrewShow)
    ensures
        r@ == spec_restyle_brew_line(raw@),
{
    let v = chars_of(raw);
    let s = strip_ansi(v.as_slice());
    let line = trim_chars(s.as_slice());
    let lower = lower_ascii_chars(line.as_slice());
    if line.len() == 0 {
        return BrewShow::Skip;
    }
    if has(&lower, "brewfile dependencies") || has(&lower, "`brew bundle` complete") || has(&lower, "circular dependency") {
        return BrewShow::Skip;
    }
    if begins(&line, "Using ") {
        return BrewShow::Already;
    }
    let inst = chars_of("Installing ");
    if starts_with_chars(line.as_slice(), inst.as_slice()) {
        let name = copy_range(line.as_slice(), inst.len(), line.len());
        let t = trim_chars(name.as_slice());
        let ts = string_of(t.as_slice());
        return BrewShow::Progress(concat2("install  ", ts.as_str()));
    }
    let arrow = chars_of("==> ");
    if starts_with_chars(line.as_slice(), arrow.as_slice()) {
        let rest = copy_range(line.as_slice(), arrow.len(), line.len());
        let lr = lower_ascii_chars(rest.as_slice());
        if begins(&lr, "pouring") {
            return BrewShow::Skip;
        }
        return BrewShow::Progress(string_of(rest.as_slice()));
    }
    if begins(&lower, "warning") {
        return BrewShow::Skip;
    }
    if begins(&lower, "error") || begins(&lower, "fatal") {
        return BrewShow::Line(string_of(line.as_slice()));
    }
    BrewShow::Skip
}

/// Two decimal digits (`{:02}`).
pub open spec fn two_digits(n: nat) -> Seq<char> {
    if n < 10 {
        "0"@ + decimal(n)
    } else {
        decimal(n)
    }
}

/// A duration: `NmSSs` from a minute on, else `Ns`.
pub open spec fn spec_fmt_dur(secs: nat) -> Seq<char> {
    if secs >= 60 {
        decimal(secs / 60) + "m"@ + two_digits(secs % 60) + "s"@
    } else {
        decimal(secs) + "s"@
    }
}

pub fn fmt_dur(secs: u64) -> (out: String)
    ensures
        out@ == spec_fmt_dur(secs as nat),
{
    if secs >= 60 {
        let m = decimal_string(secs / 60);
        let mut out = concat2(m.as_str(), "m");
        let r = secs % 60;
        if r < 10 {
            push_str(&mut out, "0");
        }
        let rs = decimal_string(r);
        push_str(&mut out, rs.as_str());
        push_str(&mut out, "s");
        out
    } else {
        let s = decimal_string(secs);
        concat2(s.as_str(), "s")
    }
}

/// How many extra packages the status lists by name.
pub const EXTRA_SHOW: usize = 24;

/// Above this many extra apt manuals the status only counts them.
pub const APT_NOISE: usize = 40;

// ---------------------------------------------------------------------------
// Installing the package sets
// ---------------------------------------------------------------------------

pub enum PackagesPhase {
    FindBrew,
    /// Whether set `i`'s Brewfile is a file.
    BrewFile(usize),
    /// `brew bundle` for set `i`.
    Bundle(usize),
    FindApt,
    LoadSets,
    AptInstall,
    Over,
}

/// The package step in progress.
pub struct PackagesRun {
    pub os: OsKind,
    pub root: String,
    pub sets: Vec<String>,
    pub phase: PackagesPhase,
    pub ok: bool,
    pub notes: Vec<String>,
    pub pkgs: Vec<String>,
}

/// What app/ does next in the package step.
pub enum PackagesAction {
    /// Look for this program on `PATH`.
    FindTool(&'static str),
    /// Whether this path is a file.
    IsFile(String),
    /// Run brew with these arguments (compact output, already-installed count).
    Brew(Vec<String>),
    /// Load the package sets of the run.
    LoadSets,
    /// `sudo apt-get install -y` these packages.
    AptInstall(Vec<String>),
    Finish(PackageReport),
}

/// What came of the last action of the package step.
pub enum PackagesEvent {
    ToolFound(bool),
    FileChecked(bool),
    /// A brew or apt run: success, how many were installed already, seconds.
    Ran { ok: bool, already: u64, secs: u64 },
    SetsLoaded(Vec<PackageSetContents>),
}

pub open spec fn reports(a: PackagesAction, backend: Seq<char>, sets: Seq<Seq<char>>, ok: bool, detail: Seq<char>) -> bool {
    a matches PackagesAction::Finish(r) && r.backend@ == backend && views(r.sets@) == sets && r.ok == ok
        && r.detail@ == detail
}

/// The line shown for a finished brew or apt run.
pub open spec fn run_note(ok: bool, already: nat, secs: nat) -> Seq<char> {
    if ok {
        decimal(already) + " already  "@ + spec_fmt_dur(secs)
    } else {
        "fail  "@ + spec_fmt_dur(secs)
    }
}

/// Starts installing `sets` from `root`: brew bundles on macOS, one apt-get
/// install on Linux.
pub fn apply_packages(root: &str, sets: &Vec<String>, os: OsKind) -> (r: (PackagesRun, PackagesAction))
    ensures
        r.0.os == os,
        r.0.root@ == root@,
        views(r.0.sets@) == views(sets@),
        r.0.ok,
        r.0.notes@.len() == 0,
        os == OsKind::Macos ==> r.1 == PackagesAction::FindTool("brew") && r.0.phase is FindBrew,
        os == OsKind::Linux ==> r.1 == PackagesAction::FindTool("apt-get") && r.0.phase is FindApt,
{
    let run = PackagesRun {
        os,
        root: owned(root),
        sets: copy_strings(sets),
        phase: match os {
            OsKind::Macos => PackagesPhase::FindBrew,
            OsKind::Linux => PackagesPhase::FindApt,
        },
        ok: true,
        notes: Vec::new(),
        pkgs: Vec::new(),
    };
    let a = match os {
        OsKind::Macos => PackagesAction::FindTool("brew"),
        OsKind::Linux => PackagesAction::FindTool("apt-get"),
    };
    (run, a)
}

/// The Brewfile check of set `i`, or the report once every set is done.
pub open spec fn brew_next(run: PackagesRun, i: int, a: PackagesAction) -> bool {
    if i < run.sets@.len() {
        (a matches PackagesAction::IsFile(p) && p@ == join_path(
            join_path(join_path(run.root@, "packages"@), "brew"@),
            run.sets@[i]@ + ".Brewfile"@,
        )) && run.phase == PackagesPhase::BrewFile(i as usize)
    } else {
        reports(a, "brew"@, views(run.sets@), run.ok, join_text(views(run.notes@), "; "@)) && run.phase is Over
    }
}

fn brew_continue(run: &mut PackagesRun, i: usize) -> (a: PackagesAction)
    requires
        i <= old(run).sets@.len(),
    ensures
        brew_next(*final(run), i as int, a),
        final(run).os == old(run).os,
        final(run).root == old(run).root,
        final(run).sets == old(run).sets,
        final(run).ok == old(run).ok,
        final(run).notes == old(run).notes,
{
    if i < run.sets.len() {
        run.phase = PackagesPhase::BrewFile(i);
        PackagesAction::IsFile(brewfile_path(run.root.as_str(), run.sets[i].as_str()))
    } else {
        run.phase = PackagesPhase::Over;
        PackagesAction::Finish(PackageReport {
            backend: "brew",
            sets: copy_strings(&run.sets),
            ok: run.ok,
            detail: join_strings(run.notes.as_slice(), "; "),
        })
    }
}

pub open spec fn step_answers(phase: PackagesPhase, event: PackagesEvent) -> bool {
    match phase {
        PackagesPhase::FindBrew | PackagesPhase::FindApt => event is ToolFound,
        PackagesPhase::BrewFile(_) => event is FileChecked,
        PackagesPhase::Bundle(_) | PackagesPhase::AptInstall => event is Ran,
        PackagesPhase::LoadSets => event is SetsLoaded,
        PackagesPhase::Over => false,
    }
}

pub open spec fn run_wf(run: PackagesRun) -> bool {
    &&& (run.phase matches PackagesPhase::BrewFile(i) ==> i < run.sets@.len())
    &&& (run.phase matches PackagesPhase::Bundle(i) ==> i < run.sets@.len())
}

/// One step of the package step: `event` answers the last action; the
/// second result is a line to show (key and value), if any.
pub fn packages_step(run: &mut PackagesRun, event: PackagesEvent) -> (r: (PackagesAction, Option<(String, String)>))
    requires
        run_wf(*old(run)),
        step_answers(old(run).phase, event),
    ensures
        run_wf(*final(run)),
        final(run).os == old(run).os,
        final(run).root == old(run).root,
        final(run).sets == old(run).sets,
        ({
            let o = *old(run);
            let f = *final(run);
            let a = r.0;
            let sets = views(o.sets@);
            match (o.phase, event) {
                (PackagesPhase::FindBrew, PackagesEvent::ToolFound(found)) => r.1 is None && if found {
                    f.ok == o.ok && f.notes == o.notes && brew_next(f, 0, a)
                } else {
                    reports(a, "brew"@, sets, false, "brew not found on PATH"@) && f.phase is Over
                },
                (PackagesPhase::BrewFile(i), PackagesEvent::FileChecked(is_file)) => r.1 is None && if is_file {
                    (a matches PackagesAction::Brew(args) && views(args@) == seq![
                        "bundle"@,
                        "--file"@,
                        join_path(join_path(join_path(o.root@, "packages"@), "brew"@), sets[i as int] + ".Brewfile"@),
                        "--no-upgrade"@,
                    ]) && f.phase == PackagesPhase::Bundle(i) && f.ok == o.ok && f.notes == o.notes
                } else {
                    !f.ok && views(f.notes@) == views(o.notes@).push("missing "@ + sets[i as int] + ".Brewfile"@)
                        && brew_next(f, i + 1, a)
                },
                (PackagesPhase::Bundle(i), PackagesEvent::Ran { ok, already, secs }) => {
                    &&& r.1 matches Some((k, v)) && k@ == sets[i as int] && v@ == run_note(ok, already as nat, secs as nat)
                    &&& f.ok == (o.ok && ok)
                    &&& views(f.notes@) == views(o.notes@).push(sets[i as int] + (if ok {
                        ": ok"@
                    } else {
                        ": brew bundle failed"@
                    }))
                    &&& brew_next(f, i + 1, a)
                },
                (PackagesPhase::FindApt, PackagesEvent::ToolFound(found)) => r.1 is None && if found {
                    a is LoadSets && f.phase is LoadSets
                } else {
                    reports(a, "apt"@, sets, false, "apt-get not found"@) && f.phase is Over
                },
                (PackagesPhase::LoadSets, PackagesEvent::SetsLoaded(loaded)) => {
                    &&& r.1 is None
                    &&& strictly_sorted_lex(views(f.pkgs@))
                    &&& (forall|x: Seq<char>| #[trigger] views(f.pkgs@).contains(x) <==> entries_of(loaded@, OsKind::Linux).contains(x))
                    &&& if f.pkgs@.len() == 0 {
                        reports(a, "apt"@, sets, true, "no packages"@) && f.phase is Over
                    } else {
                        (a matches PackagesAction::AptInstall(p) && views(p@) == views(f.pkgs@)) && f.phase is AptInstall
                    }
                },
                (PackagesPhase::AptInstall, PackagesEvent::Ran { ok, already, secs }) => {
                    &&& r.1 matches Some((k, v)) && k@ == "apt"@ && v@ == run_note(ok, already as nat, secs as nat)
                    &&& reports(a, "apt"@, sets, ok, if ok {
                        "installed "@ + join_text(views(o.pkgs@), " "@)
                    } else {
                        "apt-get failed"@
                    })
                    &&& f.phase is Over
                },
                _ => true,
            }
        }),
{
    match event {
        PackagesEvent::ToolFound(found) => {
            match run.phase {
                PackagesPhase::FindBrew => {
                    if found {
                        (brew_continue(run, 0), None)
                    } else {
                        run.phase = PackagesPhase::Over;
                        (PackagesAction::Finish(PackageReport {
                            backend: "brew",
                            sets: copy_strings(&run.sets),
                            ok: false,
                            detail: owned("brew not found on PATH"),
                        }), None)
                    }
                },
                _ => {
                    if found {
                        run.phase = PackagesPhase::LoadSets;
                        (PackagesAction::LoadSets, None)
                    } else {
                        run.phase = PackagesPhase::Over;
                        (PackagesAction::Finish(PackageReport {
                            backend: "apt",
                            sets: copy_strings(&run.sets),
                            ok: false,
                            detail: owned("apt-get not found"),
                        }), None)
                    }
                },
            }
        },
        PackagesEvent::FileChecked(is_file) => {
            let i = match run.phase {
                PackagesPhase::BrewFile(i) => i,
                _ => 0,
            };
            let n = run.sets.len();
            assert(i < n);
            if is_file {
                let path = brewfile_path(run.root.as_str(), run.sets[i].as_str());
                let mut args: Vec<String> = Vec::new();
                args.push(owned("bundle"));
                args.push(owned("--file"));
                args.push(path);
                args.push(owned("--no-upgrade"));
                proof {
                    assert(views(run.sets@)[i as int] == run.sets@[i as int]@);
                }
                assert(views(args@) =~= seq![
                    "bundle"@,
                    "--file"@,
                    join_path(join_path(join_path(run.root@, "packages"@), "brew"@), views(run.sets@)[i as int] + ".Brewfile"@),
                    "--no-upgrade"@,
                ]);
                run.phase = PackagesPhase::Bundle(i);
                (PackagesAction::Brew(args), None)
            } else {
                let ghost before = views(run.notes@);
                let note = concat3("missing ", run.sets[i].as_str(), ".Brewfile");
                run.notes.push(note);
                assert(views(run.sets@)[i as int] == run.sets@[i as int]@);
                assert(views(run.notes@) =~= before.push("missing "@ + views(run.sets@)[i as int] + ".Brewfile"@));
                run.ok = false;
                (brew_continue(run, i + 1), None)
            }
        },
        PackagesEvent::Ran { ok, already, secs } => {
            let took = fmt_dur(secs);
            let shown = if ok {
                let a = decimal_string(already);
                concat3(a.as_str(), " already  ", took.as_str())
            } else {
                concat2("fail  ", took.as_str())
            };
            match run.phase {
                PackagesPhase::Bundle(i) => {
                    let n = run.sets.len();
                    assert(i < n);
                    let key = owned(run.sets[i].as_str());
                    let ghost before = views(run.notes@);
                    let note = concat2(run.sets[i].as_str(), if ok { ": ok" } else { ": brew bundle failed" });
                    run.notes.push(note);
                    assert(views(run.sets@)[i as int] == run.sets@[i as int]@);
                    assert(views(run.notes@) =~= before.push(views(run.sets@)[i as int] + (if ok {
                        ": ok"@
                    } else {
                        ": brew bundle failed"@
                    })));
                    run.ok = run.ok && ok;
                    (brew_continue(run, i + 1), Some((key, shown)))
                },
                _ => {
                    run.phase = PackagesPhase::Over;
                    let detail = if ok {
                        let joined = join_strings(run.pkgs.as_slice(), " ");
                        concat2("installed ", joined.as_str())
                    } else {
                        owned("apt-get failed")
                    };
                    (PackagesAction::Finish(PackageReport {
                        backend: "apt",
                        sets: copy_strings(&run.sets),
                        ok,
                        detail,
                    }), Some((owned("apt"), shown)))
                },
            }
        },
        PackagesEvent::SetsLoaded(loaded) => {
            let pkgs = apt_packages(loaded.as_slice());
            let empty = pkgs.len() == 0;
            let copy = copy_strings(&pkgs);
            run.pkgs = pkgs;
            if empty {
                run.phase = PackagesPhase::Over;
                (PackagesAction::Finish(PackageReport {
                    backend: "apt",
                    sets: copy_strings(&run.sets),
                    ok: true,
                    detail: owned("no packages"),
                }), None)
            } else {
                run.phase = PackagesPhase::AptInstall;
                (PackagesAction::AptInstall(copy), None)
            }
        },
    }
}

// ---------------------------------------------------------------------------
// What is installed besides the package sets
// ---------------------------------------------------------------------------

/// The non-empty trimmed lines of a command's output.
pub open spec fn list_lines_from(ls: Seq<Seq<char>>, n: int) -> Seq<Seq<char>>
    decreases n,
{
    if n <= 0 {
        seq![]
    } else {
        let r = list_lines_from(ls, n - 1);
        if trim(ls[n - 1]).len() > 0 {
            r.push(trim(ls[n - 1]))
        } else {
            r
        }
    }
}

pub fn list_lines(out: &str) -> (r: Vec<String>)
    ensures
        views(r@) == list_lines_from(lines(out@), lines(out@).len() as int),
{
    let ls = lines_of(chars_of(out).as_slice());
    let ghost lv = ls@.map_values(|l: Vec<char>| l@);
    let mut r: Vec<String> = Vec::new();
    let mut i: usize = 0;
    while i < ls.len()
        invariant
            i <= ls.len(),
            lv == ls@.map_values(|l: Vec<char>| l@),
            lv == lines(out@),
            views(r@) == list_lines_from(lv, i as int),
        decreases ls.len() - i,
    {
        let t = trim_chars(ls[i].as_slice());
        assert(lv[i as int] == ls@[i as int]@);
        if t.len() > 0 {
            let ghost before = views(r@);
            r.push(string_of(t.as_slice()));
            assert(views(r@) =~= before.push(t@));
        }
        i = i + 1;
    }
    r
}

/// Installed brew entries: `brew:` before each formula, `cask:` before each cask.
pub fn brew_requested_entries(formulae: &Vec<String>, casks: &Vec<String>) -> (r: Vec<String>)
    ensures
        views(r@) == views(formulae@).map_values(|n: Seq<char>| "brew:"@ + n) + views(casks@).map_values(
            |n: Seq<char>| "cask:"@ + n,
        ),
{
    let mut r: Vec<String> = Vec::new();
    let mut i: usize = 0;
    while i < formulae.len()
        invariant
            i <= formulae.len(),
            views(r@) == views(formulae@.subrange(0, i as int)).map_values(|n: Seq<char>| "brew:"@ + n),
        decreases formulae.len() - i,
    {
        let ghost before = views(r@);
        r.push(concat2("brew:", formulae[i].as_str()));
        assert(views(r@) =~= before.push("brew:"@ + formulae@[i as int]@));
        assert(views(formulae@.subrange(0, i + 1)).map_values(|n: Seq<char>| "brew:"@ + n) =~= views(formulae@.subrange(0, i as int)).map_values(|n: Seq<char>| "brew:"@ + n).push("brew:"@ + formulae@[i as int]@));
        i = i + 1;
    }
    assert(formulae@.subrange(0, formulae.len() as int) =~= formulae@);
    let ghost head = views(r@);
    let mut j: usize = 0;
    while j < casks.len()
        invariant
            j <= casks.len(),
            head == views(formulae@).map_values(|n: Seq<char>| "brew:"@ + n),
            views(r@) == head + views(casks@.subrange(0, j as int)).map_values(|n: Seq<char>| "cask:"@ + n),
        decreases casks.len() - j,
    {
        let ghost before = views(r@);
        r.push(concat2("cask:", casks[j].as_str()));
        assert(views(r@) =~= before.push("cask:"@ + casks@[j as int]@));
        assert(views(casks@.subrange(0, j + 1)).map_values(|n: Seq<char>| "cask:"@ + n) =~= views(casks@.subrange(0, j as int)).map_values(|n: Seq<char>| "cask:"@ + n).push("cask:"@ + casks@[j as int]@));
        j = j + 1;
    }
    assert(casks@.subrange(0, casks.len() as int) =~= casks@);
    r
}

/// An installed name (lower-cased, non-empty) that no package set recommends on `os`.
pub open spec fn is_extra_of(installed: Seq<Seq<char>>, sets: Seq<PackageSetContents>, os: OsKind, x: Seq<char>) -> bool {
    x.len() > 0 && !recommended(sets, os, x) && exists|i: int|
        0 <= i < installed.len() && lower_ascii(#[trigger] installed[i]) == x
}

/// Every formula and cask a package set names is recommended on macOS (as
/// is every apt name on Linux), so an installed package that a set names,
/// in any letter case, is never reported as extra.
pub proof fn law_set_entries_never_extra(installed: Seq<Seq<char>>, sets: Seq<PackageSetContents>, k: int, j: int)
    requires
        0 <= k < sets.len(),
    ensures
        0 <= j < sets[k].brew@.len() && (starts_with(sets[k].brew@[j]@, "brew:"@) || starts_with(
            sets[k].brew@[j]@,
            "cask:"@,
        )) ==> recommended(sets, OsKind::Macos, lower_ascii(sets[k].brew@[j]@)) && !is_extra_of(
            installed,
            sets,
            OsKind::Macos,
            lower_ascii(sets[k].brew@[j]@),
        ),
        0 <= j < sets[k].apt@.len() ==> recommended(sets, OsKind::Linux, lower_ascii(sets[k].apt@[j]@))
            && !is_extra_of(installed, sets, OsKind::Linux, lower_ascii(sets[k].apt@[j]@)),
{
    if 0 <= j < sets[k].brew@.len() {
        let e = spec_packages_for_os(sets[k], OsKind::Macos)[j]@;
        assert(spec_packages_for_os(sets[k], OsKind::Macos) == sets[k].brew@);
        if starts_with(e, "brew:"@) || starts_with(e, "cask:"@) {
            assert(counts_for_os(e, OsKind::Macos));
        }
    }
    if 0 <= j < sets[k].apt@.len() {
        let e = spec_packages_for_os(sets[k], OsKind::Linux)[j]@;
        assert(spec_packages_for_os(sets[k], OsKind::Linux) == sets[k].apt@);
        assert(counts_for_os(e, OsKind::Linux));
    }
}

/// What is installed (brew formulae requested and casks, or apt manuals) but
/// named by none of the host's package sets, sorted; `None` when the list
/// could not be had.
pub fn extras_not_recommended(sets: &[PackageSetContents], os: OsKind, installed: Option<Vec<String>>) -> (r:
    Option<Vec<String>>)
    ensures
        installed is None ==> r is None,
        installed matches Some(i) ==> (r matches Some(e) && strictly_sorted_lex(views(e@)) && forall|x: Seq<char>|
            #[trigger] views(e@).contains(x) <==> is_extra_of(views(i@), sets@, os, x)),
{
    match installed {
        None => None,
        Some(i) => {
            let rec = recommended_for_os(sets, os);
            let e = extras_sorted(i.as_slice(), rec.as_slice());
            assert forall|x: Seq<char>| #[trigger] views(e@).contains(x) <==> is_extra_of(views(i@), sets@, os, x) by {
                assert(views(rec@).contains(x) <==> recommended(sets@, os, x));
            }
            Some(e)
        },
    }
}

/// The status lines of the extra packages: nothing when they could not be
/// listed; only their count when there are many apt manuals; a note when
/// none; else their count and the first names (and how many more).
pub fn print_extras(extra: &Option<Vec<String>>, os: OsKind, st: &Style) -> (r: Vec<String>)
    ensures
        match extra {
            None => r@.len() == 0,
            Some(e) => if os == OsKind::Linux && e@.len() > APT_NOISE {
                views(r@) == seq![
                    kv_line(*st, "extra"@, decimal(e@.len()) + " apt manuals — skipped (noisy vs role lists)"@),
                ]
            } else if e@.len() == 0 {
                views(r@) == seq![kv_line(*st, "extra"@, "none besides role sets"@)]
            } else {
                let shown = if e@.len() < EXTRA_SHOW { e@.len() as int } else { EXTRA_SHOW as int };
                views(r@) == seq![
                    kv_line(*st, "extra"@, decimal(e@.len()) + " not in role sets"@),
                    dim_line(*st, "installed besides recommended (brew deps omitted)"@),
                ] + views(e@).subrange(0, shown).map_values(|n: Seq<char>| kv_line(*st, "pkg"@, n)) + (if e@.len()
                    > EXTRA_SHOW {
                    seq![dim_line(*st, "… "@ + decimal((e@.len() - EXTRA_SHOW) as nat) + " more"@)]
                } else {
                    seq![]
                })
            },
        },
{
    let mut r: Vec<String> = Vec::new();
    match extra {
        None => r,
        Some(e) => {
            let n = decimal_string(e.len() as u64);
            let linux = match os {
                OsKind::Linux => true,
                OsKind::Macos => false,
            };
            if linux && e.len() > APT_NOISE {
                let v = concat2(n.as_str(), " apt manuals — skipped (noisy vs role lists)");
                r.push(kv("extra", v.as_str(), st));
                assert(views(r@) =~= seq![
                    kv_line(*st, "extra"@, decimal(e@.len()) + " apt manuals — skipped (noisy vs role lists)"@),
                ]);
                return r;
            }
            if e.len() == 0 {
                r.push(kv("extra", "none besides role sets", st));
                assert(views(r@) =~= seq![kv_line(*st, "extra"@, "none besides role sets"@)]);
                return r;
            }
            let v = concat2(n.as_str(), " not in role sets");
            r.push(kv("extra", v.as_str(), st));
            r.push(kvc("installed besides recommended (brew deps omitted)", st));
            let ghost head = views(r@);
            let shown = if e.len() < EXTRA_SHOW { e.len() } else { EXTRA_SHOW };
            let mut i: usize = 0;
            while i < shown
                invariant
                    i <= shown <= e@.len(),
                    views(r@) == head + views(e@).subrange(0, i as int).map_values(|x: Seq<char>| kv_line(*st, "pkg"@, x)),
                decreases shown - i,
            {
                let ghost before = views(r@);
                r.push(note("pkg", e[i].as_str(), st));
                assert(views(e@).subrange(0, i + 1) =~= views(e@).subrange(0, i as int).push(e@[i as int]@));
                assert(views(r@) =~= before.push(kv_line(*st, "pkg"@, e@[i as int]@)));
                i = i + 1;
            }
            let ghost mid = views(r@);
            if e.len() > EXTRA_SHOW {
                let m = decimal_string((e.len() - EXTRA_SHOW) as u64);
                let t = concat3("… ", m.as_str(), " more");
                r.push(item(t.as_str(), st));
                assert(views(r@) =~= mid.push(dim_line(*st, "… "@ + decimal((e@.len() - EXTRA_SHOW) as nat) + " more"@)));
            } else {
                assert(views(r@) =~= mid + Seq::<Seq<char>>::empty());
            }
            r
        },
    }
}

} // verus!
