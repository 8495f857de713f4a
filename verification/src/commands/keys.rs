//! `rig host keys`: the report of copying this machine's key to its peers.
use vstd::prelude::*;
use crate::apply::keys::DistributeReport;
use crate::text::views;
use crate::ui::{
    empty, fail, kv, ok, preview, skip, spec_field_line, spec_step_line, spec_tidy, spec_wrap, title,
    Style, BOLD, CYAN, DIM, YELLOW,
};

verus! {

/// One step line per entry of `xs`, under the mark `mark` and the id `copy`.
pub open spec fn copy_lines(st: Style, mark: Seq<char>, xs: Seq<Seq<char>>) -> Seq<Seq<char>> {
    xs.map_values(|x: Seq<char>| spec_step_line(st, mark, "copy"@, x))
}

/// The keys report: title (a preview unless `yes`), this machine, a blank
/// line, then `nothing to do` or a line per copied, skipped and failed peer;
/// then, unless `yes`, how to run it.
pub open spec fn spec_keys_report(self_name: Seq<char>, r: DistributeReport, yes: bool, st: Style) -> Seq<Seq<char>> {
    seq![
        spec_wrap(st.color, BOLD@ + CYAN@, "host keys"@) + (if !yes {
            "  "@ + spec_wrap(st.color, DIM@, "preview"@)
        } else {
            seq![]
        }),
        spec_field_line(st, DIM@, ""@, DIM@, "self"@, YELLOW@, spec_tidy(self_name, st)),
        seq![],
    ] + (if r.ok@.len() == 0 && r.skip@.len() == 0 && r.fail@.len() == 0 {
        seq![spec_field_line(st, DIM@, ""@, DIM@, ""@, DIM@, spec_tidy("nothing to do"@, st))]
    } else {
        seq![]
    }) + copy_lines(st, "ok"@, views(r.ok@)) + copy_lines(st, "skip"@, views(r.skip@)) + copy_lines(
        st,
        "fail"@,
        views(r.fail@),
    ) + (if !yes {
        seq![
            seq![],
            spec_field_line(st, DIM@, ""@, DIM@, ""@, DIM@, spec_tidy("pass --yes (-y) to "@ + "write key and copy"@, st)),
        ]
    } else {
        seq![]
    })
}

fn push_copy_lines(r: &mut Vec<String>, mark: &str, xs: &Vec<String>, st: &Style)
    ensures
        views(final(r)@) == views(old(r)@) + copy_lines(*st, mark@, views(xs@)),
{
    let ghost h = views(r@);
    let mut i: usize = 0;
    while i < xs.len()
        invariant
            i <= xs.len(),
            views(r@) == h + copy_lines(*st, mark@, views(xs@)).subrange(0, i as int),
        decreases xs.len() - i,
    {
        let ghost b = views(r@);
        r.push(crate::ui::step(mark, "copy", xs[i].as_str(), st));
        assert(views(r@) =~= b.push(spec_step_line(*st, mark@, "copy"@, views(xs@)[i as int])));
        assert(views(r@) =~= h + copy_lines(*st, mark@, views(xs@)).subrange(0, i + 1));
        i = i + 1;
    }
    assert(copy_lines(*st, mark@, views(xs@)).subrange(0, xs.len() as int) =~= copy_lines(*st, mark@, views(xs@)));
}

/// The lines of `rig host keys` for this machine and the copy's report.
pub fn keys_report(self_name: &str, report: &DistributeReport, yes: bool, st: &Style) -> (r: Vec<String>)
    ensures
        views(r@) == spec_keys_report(self_name@, *report, yes, *st),
{
    let mut r: Vec<String> = Vec::new();
    r.push(title("host keys", !yes, st));
    r.push(kv("self", self_name, st));
    r.push(String::new());
    proof {
        reveal_strlit("");
    }
    if report.ok.len() == 0 && report.skip.len() == 0 && report.fail.len() == 0 {
        r.push(empty("nothing to do", st));
    }
    let ghost h = views(r@);
    push_copy_lines(&mut r, "ok", &report.ok, st);
    push_copy_lines(&mut r, "skip", &report.skip, st);
    push_copy_lines(&mut r, "fail", &report.fail, st);
    let ghost m = views(r@);
    if !yes {
        let mut t = preview("write key and copy", st);
        let ghost tv = views(t@);
        r.append(&mut t);
        assert(views(r@) =~= m + tv);
    } else {
        assert(views(r@) =~= m + Seq::<Seq<char>>::empty());
    }
    assert(views(r@) =~= spec_keys_report(self_name@, *report, yes, *st));
    r
}

} // verus!
