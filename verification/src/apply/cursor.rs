//! Cursor user settings: which files, from where, and how each is put in
//! place (a symlink to the overlay copy, or a copy of the shipped one).
use vstd::prelude::*;
use crate::apply::features::StepReport;
use crate::apply::link::backup_path;
use crate::error::{msg_text, RigError};
use crate::paths::{join, join_path, paths_equal, same_path};
use crate::schema::OsKind;
use crate::text::{concat2, concat3, decimal_string, join as join_text, join_strings, owned, push_str, views};

verus! {

/// The Cursor user files rig installs.
pub open spec fn cursor_files() -> Seq<Seq<char>> {
    seq!["settings.json"@, "keybindings.json"@]
}

pub fn cursor_file_names() -> (r: Vec<&'static str>)
    ensures
        r@.map_values(|s: &'static str| s@) == cursor_files(),
{
    let r = vec!["settings.json", "keybindings.json"];
    assert(r@.map_values(|s: &'static str| s@) =~= cursor_files());
    r
}

/// Cursor's user settings directory under the home directory.
pub open spec fn spec_cursor_user_dir(home: Seq<char>, os: OsKind) -> Seq<char> {
    match os {
        OsKind::Macos => join_path(home, "Library/Application Support/Cursor/User"@),
        OsKind::Linux => join_path(home, ".config/Cursor/User"@),
    }
}

pub fn cursor_user_dir(home: &str, os: OsKind) -> (r: String)
    ensures
        r@ == spec_cursor_user_dir(home@, os),
{
    match os {
        OsKind::Macos => join(home, "Library/Application Support/Cursor/User"),
        OsKind::Linux => join(home, ".config/Cursor/User"),
    }
}

/// Where a settings file may come from: the overlay, the shipped live file,
/// the shipped `.example`.
pub open spec fn cursor_candidates_spec(root: Seq<char>, name: Seq<char>) -> (Seq<char>, Seq<char>, Seq<char>) {
    let tpl = join_path(join_path(root, "templates"@), "cursor/User"@);
    (
        join_path(join_path(root, "overlay/cursor/User"@), name),
        join_path(tpl, name),
        join_path(tpl, name + ".example"@),
    )
}

pub fn cursor_candidates(root: &str, name: &str) -> (r: (String, String, String))
    ensures
        (r.0@, r.1@, r.2@) == cursor_candidates_spec(root@, name@),
{
    let ov = join(root, "overlay/cursor/User");
    let t = crate::paths::templates_dir(root);
    let tpl = join(t.as_str(), "cursor/User");
    let ex = concat2(name, ".example");
    (join(ov.as_str(), name), join(tpl.as_str(), name), join(tpl.as_str(), ex.as_str()))
}

/// The source of a settings file and whether it is the overlay's: the
/// overlay copy, else the shipped live file, else the `.example`, when a file.
pub fn resolve_src(root: &str, name: &str, overlay_is_file: bool, live_is_file: bool, example_is_file: bool) -> (r:
    Option<(String, bool)>)
    ensures
        ({
            let (o, l, e) = cursor_candidates_spec(root@, name@);
            if overlay_is_file {
                r matches Some((p, true)) && p@ == o
            } else if live_is_file {
                r matches Some((p, false)) && p@ == l
            } else if example_is_file {
                r matches Some((p, false)) && p@ == e
            } else {
                r is None
            }
        }),
{
    let (o, l, e) = cursor_candidates(root, name);
    if overlay_is_file {
        Some((o, true))
    } else if live_is_file {
        Some((l, false))
    } else if example_is_file {
        Some((e, false))
    } else {
        None
    }
}

/// What to do with one destination file.
pub enum InstallAction {
    /// It is in place already.
    Already,
    /// Put `src` there (symlink or copy), first removing an old symlink, or
    /// moving an old file to the backup path.
    Install { remove_link: bool, backup: Option<String>, link: bool },
    /// Something else is there: leave it and fail.
    Refuse(RigError),
}

/// The action for `dst` given what is there. Overlay sources are symlinked
/// (kept when the link already points there); shipped ones are copied (kept
/// when a plain file is there).
pub fn install_action(
    src: &str,
    dst: &str,
    link: bool,
    is_symlink: bool,
    link_target: Option<&str>,
    is_file: bool,
    exists: bool,
    secs: u64,
) -> (a: InstallAction)
    ensures
        ({
            let bak = backup_path(dst@, secs as nat);
            let refuse = (a matches InstallAction::Refuse(e) && msg_text(e) == Some(
                "refusing to replace non-file Cursor path: "@ + dst@,
            ));
            if link {
                if is_symlink {
                    if link_target matches Some(t) && same_path(t@, src@) {
                        a is Already
                    } else {
                        a matches InstallAction::Install { remove_link, backup, link } && remove_link
                            && backup is None && link
                    }
                } else if is_file {
                    a matches InstallAction::Install { remove_link, backup, link } && !remove_link
                        && (backup matches Some(b) && b@ == bak) && link
                } else if exists {
                    refuse
                } else {
                    a matches InstallAction::Install { remove_link, backup, link } && !remove_link
                        && backup is None && link
                }
            } else {
                if is_file && !is_symlink {
                    a is Already
                } else if is_symlink || is_file {
                    a matches InstallAction::Install { remove_link, backup, link } && !remove_link
                        && (backup matches Some(b) && b@ == bak) && !link
                } else if exists {
                    refuse
                } else {
                    a matches InstallAction::Install { remove_link, backup, link } && !remove_link
                        && backup is None && !link
                }
            }
        }),
{
    let refuse = || -> (e: RigError)
        ensures
            msg_text(e) == Some("refusing to replace non-file Cursor path: "@ + dst@),
    { RigError::Msg(concat2("refusing to replace non-file Cursor path: ", dst)) };
    let bak = || -> (b: String)
        ensures
            b@ == backup_path(dst@, secs as nat),
    {
        let mut p = concat2(dst, ".bak.");
        let n = decimal_string(secs);
        push_str(&mut p, n.as_str());
        p
    };
    if link {
        if is_symlink {
            let same = match link_target {
                Some(t) => paths_equal(t, src),
                None => false,
            };
            if same {
                InstallAction::Already
            } else {
                InstallAction::Install { remove_link: true, backup: None, link: true }
            }
        } else if is_file {
            InstallAction::Install { remove_link: false, backup: Some(bak()), link: true }
        } else if exists {
            InstallAction::Refuse(refuse())
        } else {
            InstallAction::Install { remove_link: false, backup: None, link: true }
        }
    } else {
        if is_file && !is_symlink {
            InstallAction::Already
        } else if is_symlink || is_file {
            InstallAction::Install { remove_link: false, backup: Some(bak()), link: false }
        } else if exists {
            InstallAction::Refuse(refuse())
        } else {
            InstallAction::Install { remove_link: false, backup: None, link: false }
        }
    }
}

/// How one settings file ended.
pub enum CursorOutcome {
    /// Neither the overlay nor the templates have it.
    Missing,
    /// In place already.
    Already { from_overlay: bool },
    /// Installed: symlinked or copied, after backing up an old file or not.
    Installed { from_overlay: bool, backed_up: bool, linked: bool },
}

pub open spec fn outcome_note(name: Seq<char>, o: CursorOutcome) -> Seq<char> {
    match o {
        CursorOutcome::Missing => "skip "@ + name + " (no template/overlay)"@,
        CursorOutcome::Already { .. } => name + " already in place"@,
        CursorOutcome::Installed { backed_up, linked, .. } => name + " "@ + (if linked {
            "linked"@
        } else {
            "copied"@
        }) + (if backed_up {
            " (backed up previous)"@
        } else {
            seq![]
        }),
    }
}

pub open spec fn notes_upto(names: Seq<Seq<char>>, os: Seq<CursorOutcome>, n: int) -> Seq<Seq<char>>
    decreases n,
{
    if n <= 0 {
        seq![]
    } else {
        notes_upto(names, os, n - 1).push(outcome_note(names[n - 1], os[n - 1]))
    }
}

pub open spec fn from_overlay(o: CursorOutcome) -> Option<bool> {
    match o {
        CursorOutcome::Missing => None,
        CursorOutcome::Already { from_overlay } => Some(from_overlay),
        CursorOutcome::Installed { from_overlay, .. } => Some(from_overlay),
    }
}

/// Where the files came from, as the report says it.
pub open spec fn src_kind(os: Seq<CursorOutcome>) -> Seq<char> {
    let overlay = exists|i: int| 0 <= i < os.len() && from_overlay(#[trigger] os[i]) == Some(true);
    let templates = exists|i: int| 0 <= i < os.len() && from_overlay(#[trigger] os[i]) == Some(false);
    if overlay && templates {
        "overlay+templates"@
    } else if overlay {
        "overlay"@
    } else {
        "templates"@
    }
}

/// The report of the Cursor step once each file of `names` ended with the
/// outcome at the same index: nothing to install, or where the files came
/// from and into which directory, then a note per file.
pub fn cursor_report(dest_dir: &str, names: &[&str], outcomes: &[CursorOutcome]) -> (r: StepReport)
    requires
        names@.len() == outcomes@.len(),
    ensures
        r.ok,
        (forall|i: int| 0 <= i < outcomes@.len() ==> #[trigger] outcomes@[i] is Missing) ==> r.detail@
            == "no cursor templates — add *.example under templates/cursor/User or overlay/cursor/User"@,
        !(forall|i: int| 0 <= i < outcomes@.len() ==> #[trigger] outcomes@[i] is Missing) ==> r.detail@
            == join_text(
            seq![src_kind(outcomes@) + " → "@ + dest_dir@] + notes_upto(
                names@.map_values(|s: &str| s@),
                outcomes@,
                outcomes@.len() as int,
            ),
            "; "@,
        ),
{
    let ghost nv = names@.map_values(|s: &str| s@);
    let mut notes: Vec<String> = Vec::new();
    let mut any = false;
    let mut used_overlay = false;
    let mut used_templates = false;
    let mut i: usize = 0;
    while i < outcomes.len()
        invariant
            i <= outcomes.len(),
            names@.len() == outcomes@.len(),
            nv == names@.map_values(|s: &str| s@),
            views(notes@) == notes_upto(nv, outcomes@, i as int),
            any == exists|k: int| 0 <= k < i && !(#[trigger] outcomes@[k] is Missing),
            used_overlay == exists|k: int| 0 <= k < i && from_overlay(#[trigger] outcomes@[k]) == Some(true),
            used_templates == exists|k: int| 0 <= k < i && from_overlay(#[trigger] outcomes@[k]) == Some(false),
        decreases outcomes.len() - i,
    {
        let ghost before = views(notes@);
        let name = names[i];
        let note = match &outcomes[i] {
            CursorOutcome::Missing => concat3("skip ", name, " (no template/overlay)"),
            CursorOutcome::Already { from_overlay } => {
                any = true;
                if *from_overlay {
                    used_overlay = true;
                } else {
                    used_templates = true;
                }
                concat2(name, " already in place")
            },
            CursorOutcome::Installed { from_overlay, backed_up, linked } => {
                any = true;
                if *from_overlay {
                    used_overlay = true;
                } else {
                    used_templates = true;
                }
                let mut n = concat3(name, " ", if *linked { "linked" } else { "copied" });
                if *backed_up {
                    push_str(&mut n, " (backed up previous)");
                } else {
                    assert(n@ =~= n@ + Seq::<char>::empty());
                }
                n
            },
        };
        notes.push(note);
        proof {
            assert(nv[i as int] == names@[i as int]@);
            assert(views(notes@) =~= before.push(outcome_note(nv[i as int], outcomes@[i as int])));
        }
        i = i + 1;
    }
    if !any {
        return StepReport {
            ok: true,
            detail: owned("no cursor templates — add *.example under templates/cursor/User or overlay/cursor/User"),
        };
    }
    let kind = if used_overlay && used_templates {
        "overlay+templates"
    } else if used_overlay {
        "overlay"
    } else {
        "templates"
    };
    let head = concat3(kind, " → ", dest_dir);
    let mut all: Vec<String> = Vec::new();
    all.push(head);
    let ghost hv = all@[0]@;
    let mut j: usize = 0;
    while j < notes.len()
        invariant
            j <= notes@.len(),
            views(all@) == seq![hv] + views(notes@).subrange(0, j as int),
        decreases notes@.len() - j,
    {
        let ghost b = views(all@);
        all.push(owned(notes[j].as_str()));
        assert(views(all@) =~= b.push(notes@[j as int]@));
        assert(views(notes@).subrange(0, j + 1) =~= views(notes@).subrange(0, j as int).push(notes@[j as int]@));
        j = j + 1;
    }
    assert(views(notes@).subrange(0, notes@.len() as int) =~= views(notes@));
    StepReport { ok: true, detail: join_strings(all.as_slice(), "; ") }
}

} // verus!
