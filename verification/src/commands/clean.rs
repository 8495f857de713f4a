//! `rig clean`: what it will undo, and its report.
use vstd::prelude::*;
use crate::text::{concat2, owned, views};

verus! {

/// The head of `rig clean`: whether it is a preview, the root, the state
/// file, and what happens to the packages; then a blank line.
pub open spec fn spec_clean_header(root: Seq<char>, state_path: Seq<char>, yes: bool, packages: bool) -> Seq<Seq<char>> {
    seq![
        "rig clean"@ + (if yes { seq![] } else { "  (preview)"@ }),
        "  root: "@ + root,
        "  state file: "@ + state_path,
        "  packages: "@ + (if packages {
            "uninstall recorded sets (destructive)"@
        } else {
            "keep (pass --packages to uninstall)"@
        }),
        seq![],
    ]
}

pub fn clean_header(root: &str, state_path: &str, yes: bool, packages: bool) -> (r: Vec<String>)
    ensures
        views(r@) == spec_clean_header(root@, state_path@, yes, packages),
{
    let mut r: Vec<String> = Vec::new();
    r.push(concat2("rig clean", if yes { "" } else { "  (preview)" }));
    r.push(concat2("  root: ", root));
    r.push(concat2("  state file: ", state_path));
    r.push(concat2(
        "  packages: ",
        if packages { "uninstall recorded sets (destructive)" } else { "keep (pass --packages to uninstall)" },
    ));
    r.push(String::new());
    proof {
        reveal_strlit("");
    }
    assert(views(r@) =~= spec_clean_header(root@, state_path@, yes, packages));
    r
}

/// The end of `rig clean`: the report, then in a preview how to run it.
pub fn clean_footer(detail: &str, yes: bool) -> (r: Vec<String>)
    ensures
        views(r@) == seq![detail@] + (if yes {
            seq![]
        } else {
            seq![seq![], "preview — pass --yes (-y) to clean"@]
        }),
{
    let mut r: Vec<String> = Vec::new();
    r.push(owned(detail));
    if !yes {
        r.push(String::new());
        r.push(owned("preview — pass --yes (-y) to clean"));
    }
    proof {
        reveal_strlit("");
    }
    assert(views(r@) =~= seq![detail@] + (if yes {
        seq![]
    } else {
        seq![seq![], "preview — pass --yes (-y) to clean"@]
    }));
    r
}

} // verus!
