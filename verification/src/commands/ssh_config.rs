//! `rig host ssh-config`: the report before and after writing the generated
//! SSH config.
use vstd::prelude::*;
use crate::commands::status::{host_aliases, spec_host_aliases};
use crate::text::{append_lines, concat2, decimal, decimal_string, views};
use crate::ui::{kv, kv_line, note, preview, spec_field_line, spec_tidy, spec_wrap, title, Style, BOLD, CYAN, DIM};

verus! {

/// The title line of the command, marked as a preview unless `wrote`.
pub open spec fn ssh_config_title(st: Style, wrote: bool) -> Seq<char> {
    spec_wrap(st.color, BOLD@ + CYAN@, "ssh-config"@) + (if !wrote {
        "  "@ + spec_wrap(st.color, DIM@, "preview"@)
    } else {
        seq![]
    })
}

/// The preview: where the config goes, how many `Host` aliases the
/// generated text `conf` holds and each of them, then how to write it.
pub open spec fn spec_ssh_config_preview(conf: Seq<char>, st: Style) -> Seq<Seq<char>> {
    let al = spec_host_aliases(conf);
    seq![
        ssh_config_title(st, false),
        kv_line(st, "write"@, "~/.ssh/config.d/rig.conf"@),
        kv_line(st, "aliases"@, decimal(al.len())),
    ] + al.map_values(|a: Seq<char>| kv_line(st, "host"@, a)) + seq![
        Seq::<char>::empty(),
        spec_field_line(st, DIM@, ""@, DIM@, ""@, DIM@, spec_tidy("pass --yes (-y) to "@ + "write"@, st)),
    ]
}

/// The lines of `rig host ssh-config` without `--yes`, for the generated text.
pub fn ssh_config_preview(conf: &str, st: &Style) -> (r: Vec<String>)
    ensures
        views(r@) == spec_ssh_config_preview(conf@, *st),
{
    let al = host_aliases(conf);
    let ghost alv = views(al@);
    let mut r: Vec<String> = Vec::new();
    r.push(title("ssh-config", true, st));
    r.push(kv("write", "~/.ssh/config.d/rig.conf", st));
    let n = decimal_string(al.len() as u64);
    r.push(kv("aliases", n.as_str(), st));
    let ghost h = views(r@);
    let mut i: usize = 0;
    while i < al.len()
        invariant
            i <= al.len(),
            alv == views(al@),
            views(r@) == h + alv.map_values(|a: Seq<char>| kv_line(*st, "host"@, a)).subrange(0, i as int),
        decreases al.len() - i,
    {
        let ghost b = views(r@);
        r.push(note("host", al[i].as_str(), st));
        assert(views(r@) =~= b.push(kv_line(*st, "host"@, alv[i as int])));
        assert(views(r@) =~= h + alv.map_values(|a: Seq<char>| kv_line(*st, "host"@, a)).subrange(0, i + 1));
        i = i + 1;
    }
    assert(alv.map_values(|a: Seq<char>| kv_line(*st, "host"@, a)).subrange(0, al.len() as int) =~= alv.map_values(
        |a: Seq<char>| kv_line(*st, "host"@, a),
    ));
    append_lines(&mut r, preview("write", st));
    assert(views(r@) =~= spec_ssh_config_preview(conf@, *st));
    r
}

/// After writing: the file written, the include it relies on, and where the
/// `[[ssh]]` entries are edited.
pub open spec fn spec_ssh_config_done(path: Seq<char>, hosts_dir: Seq<char>, st: Style) -> Seq<Seq<char>> {
    seq![
        ssh_config_title(st, true),
        kv_line(st, "wrote"@, path),
        kv_line(st, "include"@, "config.d/*.conf in ~/.ssh/config"@),
        kv_line(st, "source"@, hosts_dir + "/  (edit [[ssh]] there, not the generated file)"@),
    ]
}

/// The lines of `rig host ssh-config --yes` once the config is at `path`.
pub fn ssh_config_done(path: &str, hosts_dir: &str, st: &Style) -> (r: Vec<String>)
    ensures
        views(r@) == spec_ssh_config_done(path@, hosts_dir@, *st),
{
    let mut r: Vec<String> = Vec::new();
    r.push(title("ssh-config", false, st));
    r.push(kv("wrote", path, st));
    r.push(kv("include", "config.d/*.conf in ~/.ssh/config", st));
    let s = concat2(hosts_dir, "/  (edit [[ssh]] there, not the generated file)");
    r.push(kv("source", s.as_str(), st));
    assert(views(r@) =~= spec_ssh_config_done(path@, hosts_dir@, *st));
    r
}

} // verus!
