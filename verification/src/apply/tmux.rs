//! Linking `~/.tmux.conf` and the tmux status scripts.
use vstd::prelude::*;
use crate::apply::link::SymlinkAction;
use crate::error::{msg_text, RigError};
use crate::paths::{
    config_dir_of, join, join_path, path_has_prefix, path_starts_with, project_dirs,
    templates_dir,
};
use crate::text::{concat2, decimal, decimal_string, owned, push_str};

verus! {

/// What linking tmux did: the line to show, the linked `~/.tmux.conf`, and the
/// status scripts installed.
pub struct TmuxReport {
    pub detail: String,
    pub linked: Option<String>,
    pub extra: Vec<String>,
}

pub open spec fn overlay_tmux_conf(root: Seq<char>) -> Seq<char> {
    join_path(root, "overlay/tmux.conf"@)
}

pub open spec fn template_tmux_conf(root: Seq<char>) -> Seq<char> {
    join_path(join_path(root, "templates"@), "tmux/tmux.conf"@)
}

/// Where `tmux.conf` may be: the overlay copy, then the shipped one.
pub fn tmux_conf_candidates(root: &str) -> (r: (String, String))
    ensures
        r.0@ == overlay_tmux_conf(root@),
        r.1@ == template_tmux_conf(root@),
{
    let t = templates_dir(root);
    (join(root, "overlay/tmux.conf"), join(t.as_str(), "tmux/tmux.conf"))
}

/// The `tmux.conf` to link: the overlay copy when it is a file, else the
/// shipped one when it is, else none.
pub fn resolve_src(root: &str, overlay_is_file: bool, template_is_file: bool) -> (r: Option<String>)
    ensures
        overlay_is_file ==> (r matches Some(p) && p@ == overlay_tmux_conf(root@)),
        !overlay_is_file && template_is_file ==> (r matches Some(p) && p@ == template_tmux_conf(
            root@,
        )),
        !overlay_is_file && !template_is_file ==> r is None,
{
    let (o, t) = tmux_conf_candidates(root);
    if overlay_is_file {
        Some(o)
    } else if template_is_file {
        Some(t)
    } else {
        None
    }
}

/// The error when no `tmux.conf` exists.
pub fn missing_tmux_template() -> (e: RigError)
    ensures
        msg_text(e) == Some(
            "missing tmux template (templates/tmux/tmux.conf or overlay/tmux.conf)"@,
        ),
{
    RigError::Msg(owned("missing tmux template (templates/tmux/tmux.conf or overlay/tmux.conf)"))
}

/// The directory of status scripts to install: the overlay's when it is a
/// directory, else the shipped one when it is, else none.
pub fn tmux_scripts_source(root: &str, overlay_is_dir: bool, template_is_dir: bool) -> (r: Option<
    String,
>)
    ensures
        overlay_is_dir ==> (r matches Some(p) && p@ == join_path(root@, "overlay/tmux/scripts"@)),
        !overlay_is_dir && template_is_dir ==> (r matches Some(p) && p@ == join_path(
            join_path(root@, "templates"@),
            "tmux/scripts"@,
        )),
        !overlay_is_dir && !template_is_dir ==> r is None,
{
    if overlay_is_dir {
        Some(join(root, "overlay/tmux/scripts"))
    } else if template_is_dir {
        let t = templates_dir(root);
        Some(join(t.as_str(), "tmux/scripts"))
    } else {
        None
    }
}

/// Where the status scripts go: `tmux/scripts` under rig's configuration
/// directory, or `.rig-config/tmux/scripts` when the home directory is unknown.
pub fn tmux_scripts_dir() -> (r: String)
    ensures
        r@ == ".rig-config/tmux/scripts"@ || exists|dir: Seq<char>| r@ == #[trigger] join_path(
            dir,
            "tmux/scripts"@,
        ),
{
    match project_dirs() {
        Some(d) => {
            let c = config_dir_of(&d);
            let r = join(c.as_str(), "tmux/scripts");
            assert(r@ == join_path(c@, "tmux/scripts"@));
            r
        },
        None => owned(".rig-config/tmux/scripts"),
    }
}

/// `~/.tmux.conf` under the home directory `home`.
pub fn tmux_conf_path(home: &str) -> (r: String)
    ensures
        r@ == join_path(home@, ".tmux.conf"@),
{
    join(home, ".tmux.conf")
}

/// The report after `~/.tmux.conf` (`dst`) was handled by `action` toward
/// `src`, with `extra` the scripts installed; a refused action is the error.
pub fn tmux_report(root: &str, src: &str, dst: &str, action: SymlinkAction, extra: Vec<String>) -> (r:
    Result<TmuxReport, RigError>)
    ensures
        match action {
            SymlinkAction::Refuse(e) => r == Err::<TmuxReport, RigError>(e),
            SymlinkAction::Keep => r matches Ok(t) && t.detail@ == "already linked → "@ + src@,
            SymlinkAction::BackUp(bak) => r matches Ok(t) && t.detail@ == "linked "@ + src@
                + " (backed up previous → "@ + bak@ + ")"@,
            _ => r matches Ok(t) && t.detail@ == (if path_has_prefix(
                src@,
                join_path(root@, "overlay"@),
            ) {
                "overlay"@
            } else {
                "templates"@
            }) + " → "@ + dst@ + "  "@ + decimal(extra@.len()) + " scripts"@,
        },
        r matches Ok(t) ==> (t.extra@ == extra@ && (t.linked matches Some(l) && l@ == dst@)),
{
    let detail = match action {
        SymlinkAction::Refuse(e) => {
            return Err(e);
        },
        SymlinkAction::Keep => concat2("already linked → ", src),
        SymlinkAction::BackUp(bak) => {
            let mut d = concat2("linked ", src);
            push_str(&mut d, " (backed up previous → ");
            push_str(&mut d, bak.as_str());
            push_str(&mut d, ")");
            d
        },
        _ => {
            let overlay = join(root, "overlay");
            let mut d = if path_starts_with(src, overlay.as_str()) {
                owned("overlay")
            } else {
                owned("templates")
            };
            push_str(&mut d, " → ");
            push_str(&mut d, dst);
            push_str(&mut d, "  ");
            let n = decimal_string(extra.len() as u64);
            push_str(&mut d, n.as_str());
            push_str(&mut d, " scripts");
            d
        },
    };
    Ok(TmuxReport { detail, linked: Some(owned(dst)), extra })
}

} // verus!
