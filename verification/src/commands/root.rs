//! `rig root`: the product data root (first line, alone, for scripts), then
//! where its parts are.
use vstd::prelude::*;
use crate::ui::{kv_line};
use crate::paths::{join, join_path};
use crate::schema::role::{os_name, OsKind};
use crate::text::{concat2, owned, views};
use crate::ui::{kv, kvc, spec_field_line, spec_tidy, spec_wrap, title, Style, BOLD, CYAN, DIM, YELLOW};

verus! {

pub open spec fn spec_root_lines(root: Seq<char>, os: OsKind, st: Style) -> Seq<Seq<char>> {
    seq![
        root,
        spec_wrap(st.color, BOLD@ + CYAN@, "root"@),
        kv_line(st, "os"@, os_name(os)),
        spec_field_line(st, DIM@, ""@, DIM@, ""@, DIM@, spec_tidy("(auto-detect; override in hosts/*.toml)"@, st)),
        kv_line(st, "hosts"@, join_path(root, "hosts"@) + "/"@),
        kv_line(st, "overlay"@, join_path(root, "overlay"@) + "/"@),
        kv_line(st, "templates"@, join_path(root, "templates"@) + "/  (product — prefer overlay/)"@),
    ]
}

/// The lines of `rig root` for the root and this machine's OS.
pub fn root_lines(root: &str, os: OsKind, st: &Style) -> (r: Vec<String>)
    ensures
        views(r@) == spec_root_lines(root@, os, *st),
{
    let mut r: Vec<String> = Vec::new();
    r.push(owned(root));
    r.push(title("root", false, st));
    r.push(kv("os", os.as_str(), st));
    r.push(kvc("(auto-detect; override in hosts/*.toml)", st));
    let h = join(root, "hosts");
    let hs = concat2(h.as_str(), "/");
    r.push(kv("hosts", hs.as_str(), st));
    let o = join(root, "overlay");
    let os_ = concat2(o.as_str(), "/");
    r.push(kv("overlay", os_.as_str(), st));
    let t = join(root, "templates");
    let ts = concat2(t.as_str(), "/  (product — prefer overlay/)");
    r.push(kv("templates", ts.as_str(), st));
    proof {
        reveal_strlit("");
    }
    assert(views(r@) =~= spec_root_lines(root@, os, *st));
    r
}

} // verus!
