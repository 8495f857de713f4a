//! The GUI step: Homebrew casks of the package sets, installed one by one
//! unless already there.
use vstd::prelude::*;
use crate::apply::clean::{brew_formula_names, entries_for_os, entries_of, tagged_name};
use crate::apply::features::StepReport;
use crate::order::strictly_sorted_lex;
use crate::packages::PackageSetContents;
use crate::schema::OsKind;
use crate::text::{concat2, decimal, decimal_string, owned, push_str, str_eq, views};

verus! {

pub enum GuiPhase {
    FindBrew,
    LoadSets,
    ListInstalled,
    /// Cask `i` is being shown as already there, or installed.
    Cask(usize),
    Over,
}

/// The GUI step in progress: the casks in order, those installed before, and
/// the counts so far.
pub struct GuiRun {
    pub phase: GuiPhase,
    pub casks: Vec<String>,
    pub have: Vec<String>,
    pub already: usize,
    pub installed: usize,
    pub failed: usize,
}

/// What app/ does next in the GUI step.
pub enum GuiAction {
    FindBrew,
    LoadSets,
    ListInstalledCasks,
    /// Show that this cask is there already.
    ShowAlready(String),
    /// `brew install --cask` this cask.
    Install(String),
    Finish(StepReport),
}

/// What came of the last action of the GUI step.
pub enum GuiEvent {
    BrewFound(bool),
    SetsLoaded(Vec<PackageSetContents>),
    InstalledCasks(Vec<String>),
    Shown,
    Installed(bool),
}

/// Starts the GUI step: casks on macOS, nothing on Linux.
pub fn apply_gui(os: OsKind) -> (r: (GuiRun, GuiAction))
    ensures
        os == OsKind::Linux ==> (r.1 matches GuiAction::Finish(rep) && rep.ok && rep.detail@
            == "skipped on linux (no brew casks)"@) && r.0.phase is Over,
        os == OsKind::Macos ==> r.1 is FindBrew && r.0.phase is FindBrew,
{
    let run = GuiRun {
        phase: match os {
            OsKind::Macos => GuiPhase::FindBrew,
            OsKind::Linux => GuiPhase::Over,
        },
        casks: Vec::new(),
        have: Vec::new(),
        already: 0,
        installed: 0,
        failed: 0,
    };
    match os {
        OsKind::Linux => (run, GuiAction::Finish(StepReport { ok: true, detail: owned("skipped on linux (no brew casks)") })),
        OsKind::Macos => (run, GuiAction::FindBrew),
    }
}

/// The casks of the package sets: sorted, without repeats.
pub fn gui_casks(sets: &[PackageSetContents]) -> (r: Vec<String>)
    ensures
        strictly_sorted_lex(views(r@)),
        forall|x: Seq<char>| #[trigger] views(r@).contains(x) <==> tagged_name(entries_of(sets@, OsKind::Macos), "cask:"@, x),
{
    let entries = entries_for_os(sets, OsKind::Macos);
    let (_, casks) = brew_formula_names(entries.as_slice());
    casks
}

/// How many of the first `n` casks were there before.
pub open spec fn had_before(casks: Seq<Seq<char>>, have: Seq<Seq<char>>, n: int) -> nat
    decreases n,
{
    if n <= 0 {
        0
    } else {
        had_before(casks, have, n - 1) + if have.contains(casks[n - 1]) {
            1nat
        } else {
            0nat
        }
    }
}

pub open spec fn gui_wf(run: GuiRun) -> bool {
    run.phase matches GuiPhase::Cask(i) ==> {
        &&& i < run.casks@.len()
        &&& run.already + run.installed + run.failed == i
        &&& run.already == had_before(views(run.casks@), views(run.have@), i as int)
    }
}

/// The step's report from the counts.
pub open spec fn gui_detail(n: nat, already: nat, installed: nat) -> Seq<char> {
    decimal(n) + " cask(s): "@ + decimal(already) + " already, "@ + decimal(installed) + " installed"@
}

/// The action for cask `i` (or the report after the last one).
pub open spec fn cask_action(run: GuiRun, i: int, a: GuiAction) -> bool {
    if i < run.casks@.len() {
        run.phase == GuiPhase::Cask(i as usize) && if views(run.have@).contains(run.casks@[i]@) {
            a matches GuiAction::ShowAlready(c) && c@ == run.casks@[i]@
        } else {
            a matches GuiAction::Install(c) && c@ == run.casks@[i]@
        }
    } else {
        run.phase is Over && (a matches GuiAction::Finish(rep) && rep.ok == (run.failed == 0) && rep.detail@
            == gui_detail(run.casks@.len() as nat, run.already as nat, run.installed as nat))
    }
}

fn contains_text_in(list: &Vec<String>, x: &str) -> (b: bool)
    ensures
        b == views(list@).contains(x@),
{
    let mut i: usize = 0;
    while i < list.len()
        invariant
            i <= list.len(),
            forall|k: int| 0 <= k < i ==> views(list@)[k] != x@,
        decreases list.len() - i,
    {
        if str_eq(list[i].as_str(), x) {
            assert(views(list@)[i as int] == x@);
            return true;
        }
        i = i + 1;
    }
    false
}

fn cask_continue(run: &mut GuiRun, i: usize) -> (a: GuiAction)
    requires
        i <= old(run).casks@.len(),
        old(run).already + old(run).installed + old(run).failed == i,
        old(run).already == had_before(views(old(run).casks@), views(old(run).have@), i as int),
    ensures
        gui_wf(*final(run)),
        cask_action(*final(run), i as int, a),
        final(run).casks == old(run).casks,
        final(run).have == old(run).have,
        final(run).already == old(run).already,
        final(run).installed == old(run).installed,
        final(run).failed == old(run).failed,
{
    if i < run.casks.len() {
        run.phase = GuiPhase::Cask(i);
        let c = owned(run.casks[i].as_str());
        assert(views(run.casks@)[i as int] == run.casks@[i as int]@);
        if contains_text_in(&run.have, run.casks[i].as_str()) {
            GuiAction::ShowAlready(c)
        } else {
            GuiAction::Install(c)
        }
    } else {
        run.phase = GuiPhase::Over;
        let n = decimal_string(run.casks.len() as u64);
        let mut d = concat2(n.as_str(), " cask(s): ");
        let a = decimal_string(run.already as u64);
        push_str(&mut d, a.as_str());
        push_str(&mut d, " already, ");
        let k = decimal_string(run.installed as u64);
        push_str(&mut d, k.as_str());
        push_str(&mut d, " installed");
        GuiAction::Finish(StepReport { ok: run.failed == 0, detail: d })
    }
}

/// The event answers the action of the phase: a cask that was there is
/// shown, any other installed.
pub open spec fn gui_answers(run: GuiRun, event: GuiEvent) -> bool {
    match run.phase {
        GuiPhase::FindBrew => event is BrewFound,
        GuiPhase::LoadSets => event is SetsLoaded,
        GuiPhase::ListInstalled => event is InstalledCasks,
        GuiPhase::Cask(i) => if i < run.casks@.len() && views(run.have@).contains(run.casks@[i as int]@) {
            event is Shown
        } else {
            event is Installed
        },
        GuiPhase::Over => false,
    }
}

/// One step of the GUI step after `event`. Casks already there are counted
/// and shown; the others are installed, each failure making the step fail.
pub fn gui_step(run: &mut GuiRun, event: GuiEvent) -> (a: GuiAction)
    requires
        gui_wf(*old(run)),
        gui_answers(*old(run), event),
    ensures
        gui_wf(*final(run)),
        ({
            let o = *old(run);
            let f = *final(run);
            match (o.phase, event) {
                (GuiPhase::FindBrew, GuiEvent::BrewFound(found)) => if found {
                    a is LoadSets && f.phase is LoadSets
                } else {
                    (a matches GuiAction::Finish(rep) && rep.ok && rep.detail@ == "brew not found — skip GUI casks"@)
                        && f.phase is Over
                },
                (GuiPhase::LoadSets, GuiEvent::SetsLoaded(sets)) => {
                    &&& strictly_sorted_lex(views(f.casks@))
                    &&& (forall|x: Seq<char>| #[trigger] views(f.casks@).contains(x) <==> tagged_name(
                        entries_of(sets@, OsKind::Macos),
                        "cask:"@,
                        x,
                    ))
                    &&& if f.casks@.len() == 0 {
                        (a matches GuiAction::Finish(rep) && rep.ok && rep.detail@ == "no casks in package sets"@)
                            && f.phase is Over
                    } else {
                        a is ListInstalledCasks && f.phase is ListInstalled
                    }
                },
                (GuiPhase::ListInstalled, GuiEvent::InstalledCasks(have)) => {
                    &&& f.casks == o.casks
                    &&& views(f.have@) == views(have@)
                    &&& f.already == 0 && f.installed == 0 && f.failed == 0
                    &&& cask_action(f, 0, a)
                },
                (GuiPhase::Cask(i), ev) => {
                    &&& f.casks == o.casks
                    &&& f.have == o.have
                    &&& f.already == o.already + (if ev is Shown { 1usize } else { 0usize })
                    &&& f.installed == o.installed + (if ev matches GuiEvent::Installed(true) { 1usize } else { 0usize })
                    &&& f.failed == o.failed + (if ev matches GuiEvent::Installed(false) { 1usize } else { 0usize })
                    &&& cask_action(f, i + 1, a)
                },
                _ => true,
            }
        }),
{
    match event {
        GuiEvent::BrewFound(found) => {
            if found {
                run.phase = GuiPhase::LoadSets;
                GuiAction::LoadSets
            } else {
                run.phase = GuiPhase::Over;
                GuiAction::Finish(StepReport { ok: true, detail: owned("brew not found — skip GUI casks") })
            }
        },
        GuiEvent::SetsLoaded(sets) => {
            let casks = gui_casks(sets.as_slice());
            let empty = casks.len() == 0;
            run.casks = casks;
            if empty {
                run.phase = GuiPhase::Over;
                GuiAction::Finish(StepReport { ok: true, detail: owned("no casks in package sets") })
            } else {
                run.phase = GuiPhase::ListInstalled;
                GuiAction::ListInstalledCasks
            }
        },
        GuiEvent::InstalledCasks(have) => {
            run.have = have;
            run.already = 0;
            run.installed = 0;
            run.failed = 0;
            cask_continue(run, 0)
        },
        GuiEvent::Shown => {
            let i = match run.phase {
                GuiPhase::Cask(i) => i,
                _ => 0,
            };
            let n = run.casks.len();
            assert(i < n);
            proof {
                let cv = views(run.casks@);
                let hv = views(run.have@);
                assert(cv[i as int] == run.casks@[i as int]@);
                assert(had_before(cv, hv, i + 1) == had_before(cv, hv, i as int) + 1);
            }
            run.already = run.already + 1;
            cask_continue(run, i + 1)
        },
        GuiEvent::Installed(ok) => {
            let i = match run.phase {
                GuiPhase::Cask(i) => i,
                _ => 0,
            };
            let n = run.casks.len();
            assert(i < n);
            proof {
                let cv = views(run.casks@);
                let hv = views(run.have@);
                assert(cv[i as int] == run.casks@[i as int]@);
                assert(had_before(cv, hv, i + 1) == had_before(cv, hv, i as int));
            }
            if ok {
                run.installed = run.installed + 1;
            } else {
                run.failed = run.failed + 1;
            }
            cask_continue(run, i + 1)
        },
    }
}

} // verus!
