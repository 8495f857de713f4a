//! Reversing an apply: which managed files go, how rig's block leaves an rc
//! file, and which packages the recorded sets name.
use vstd::prelude::*;
use crate::apply::state::RigState;
use crate::order::{sort_dedup_strings, strictly_sorted_lex};
use crate::packages::{packages_for_os, spec_packages_for_os, PackageSetContents};
use crate::schema::OsKind;
use crate::text::{
    chars_of, copy_range, find, find_chars, skip_fwd, skip_fwd_exec, starts_with, starts_with_chars,
    str_eq, string_of, views, CharClass,
};

verus! {

/// The first line of rig's block in an rc file.
pub const BEGIN: &'static str = "# >>> begin rig >>>";

/// The last line of rig's block in an rc file.
pub const END: &'static str = "# <<< end rig <<<";

/// The lines of a clean run and the errors it met.
pub struct CleanReport {
    pub lines: Vec<String>,
    pub errors: Vec<String>,
}

/// Whether the stay-awake step ran in the recorded apply.
pub open spec fn spec_stay_awake_was_applied(st: RigState) -> bool {
    match st.step_detail_spec("stay-awake"@) {
        Some(d) => d != "skipped"@,
        None => false,
    }
}

pub fn stay_awake_was_applied(st: &RigState) -> (b: bool)
    ensures
        b == spec_stay_awake_was_applied(*st),
{
    match st.step_detail("stay-awake") {
        Some(d) => !str_eq(d.as_str(), "skipped"),
        None => false,
    }
}

/// The shell rc files from which rig's block is stripped rather than deleted.
pub open spec fn spec_is_shell_rc(name: Seq<char>) -> bool {
    name == ".bashrc"@ || name == ".bash_profile"@ || name == ".zshrc"@ || name == ".zprofile"@
}

/// Whether a file name is one of the shell rc files.
pub fn is_shell_rc(file_name: &str) -> (b: bool)
    ensures
        b == spec_is_shell_rc(file_name@),
{
    str_eq(file_name, ".bashrc") || str_eq(file_name, ".bash_profile") || str_eq(file_name, ".zshrc")
        || str_eq(file_name, ".zprofile")
}

/// What cleaning one managed path does.
#[derive(Debug, Clone, Copy, PartialEq, Eq, Structural)]
pub enum CleanAction {
    /// The path is gone already.
    Nothing,
    /// Strip rig's block from the rc file.
    StripBlock,
    /// Report that the file or link would be removed.
    WouldRemove,
    /// Remove the file or link.
    Remove,
    /// Leave a directory or other non-file alone.
    SkipNonFile,
}

/// The decision for one managed path from what is on disk: nothing when it
/// is gone, strip the block from an rc file, remove a file or link (or say
/// so when previewing), leave anything else.
pub open spec fn spec_clean_action(exists: bool, is_symlink: bool, is_file: bool, shell_rc: bool, preview: bool) -> CleanAction {
    if !exists && !is_symlink {
        CleanAction::Nothing
    } else if shell_rc {
        CleanAction::StripBlock
    } else if is_symlink || is_file {
        if preview {
            CleanAction::WouldRemove
        } else {
            CleanAction::Remove
        }
    } else {
        CleanAction::SkipNonFile
    }
}

proof fn lemma_last_slash(s: Seq<char>, j: int, k: int)
    requires
        0 <= k < j <= s.len(),
        s[k] == '/',
        forall|m: int| k < m < j ==> s[m] != '/',
    ensures
        crate::schema::last_before(s, j, '/') == k,
    decreases j,
{
    if j - 1 > k {
        lemma_last_slash(s, j - 1, k);
    }
}

/// The file name of a path `dir/name` is `name` when `name` holds no `/`.
proof fn lemma_file_name_of_join(dir: Seq<char>, name: Seq<char>)
    requires
        forall|m: int| 0 <= m < name.len() ==> name[m] != '/',
    ensures
        crate::schema::file_name(dir + seq!['/'] + name) == name,
{
    let s = dir + seq!['/'] + name;
    assert forall|m: int| dir.len() < m < s.len() implies s[m] != '/' by {
        assert(s[m] == name[m - dir.len() - 1]);
    }
    lemma_last_slash(s, s.len() as int, dir.len() as int);
    assert(s.subrange(dir.len() + 1 as int, s.len() as int) =~= name);
}

/// Cleaning never deletes a shell rc file: a managed path whose file name is
/// `.bashrc`, `.bash_profile`, `.zshrc` or `.zprofile`, in any directory,
/// only has rig's block stripped (when anything stands there), with or
/// without `--yes`.
pub proof fn law_rc_files_are_stripped(
    dir: Seq<char>,
    name: Seq<char>,
    exists: bool,
    is_symlink: bool,
    is_file: bool,
    preview: bool,
)
    requires
        name == ".bashrc"@ || name == ".bash_profile"@ || name == ".zshrc"@ || name == ".zprofile"@,
        exists || is_symlink,
    ensures
        spec_clean_action(
            exists,
            is_symlink,
            is_file,
            spec_is_shell_rc(crate::schema::file_name(dir + seq!['/'] + name)),
            preview,
        ) == CleanAction::StripBlock,
{
    reveal_strlit(".bashrc");
    reveal_strlit(".bash_profile");
    reveal_strlit(".zshrc");
    reveal_strlit(".zprofile");
    assert forall|m: int| 0 <= m < name.len() implies name[m] != '/' by {}
    lemma_file_name_of_join(dir, name);
}

/// The decision for one managed path from what is on disk.
pub fn clean_action(exists: bool, is_symlink: bool, is_file: bool, shell_rc: bool, preview: bool) -> (a: CleanAction)
    ensures
        a == spec_clean_action(exists, is_symlink, is_file, shell_rc, preview),
{
    if !exists && !is_symlink {
        CleanAction::Nothing
    } else if shell_rc {
        CleanAction::StripBlock
    } else if is_symlink || is_file {
        if preview {
            CleanAction::WouldRemove
        } else {
            CleanAction::Remove
        }
    } else {
        CleanAction::SkipNonFile
    }
}

/// Text with every run of three or more line feeds cut to two, from index `i`
/// with `run` line feeds just seen.
pub open spec fn cap_newlines_acc(s: Seq<char>, i: int, run: nat) -> Seq<char>
    decreases s.len() - i,
{
    if i < 0 || i >= s.len() {
        seq![]
    } else if s[i] == '\n' {
        if run >= 2 {
            cap_newlines_acc(s, i + 1, run + 1)
        } else {
            seq![s[i]] + cap_newlines_acc(s, i + 1, run + 1)
        }
    } else {
        seq![s[i]] + cap_newlines_acc(s, i + 1, 0)
    }
}

/// Replacing `\n\n\n` by `\n\n` until none is left: runs of line feeds longer
/// than two become two.
pub open spec fn collapse_blank_lines(s: Seq<char>) -> Seq<char> {
    cap_newlines_acc(s, 0, 0)
}

/// Runs of three or more line feeds cut to two.
pub fn collapse_blank_lines_exec(s: &[char]) -> (out: Vec<char>)
    ensures
        out@ == collapse_blank_lines(s@),
{
    let mut out: Vec<char> = Vec::new();
    let mut i: usize = 0;
    let mut run: usize = 0;
    while i < s.len()
        invariant
            i <= s.len(),
            run <= i,
            out@ + cap_newlines_acc(s@, i as int, run as nat) == collapse_blank_lines(s@),
        decreases s.len() - i,
    {
        let ghost before = out@;
        if s[i] == '\n' {
            if run < 2 {
                out.push('\n');
                assert(out@ =~= before + seq![s@[i as int]]);
            }
            run = run + 1;
        } else {
            out.push(s[i]);
            assert(out@ =~= before + seq![s@[i as int]]);
            run = 0;
        }
        i = i + 1;
    }
    assert(out@ =~= out@ + cap_newlines_acc(s@, i as int, run as nat));
    out
}

/// The text after the block: the text after the end marker, without leading line feeds.
pub open spec fn after_block(e: Seq<char>, t: int) -> Seq<char> {
    let tail = e.subrange(t + END@.len(), e.len() as int);
    tail.subrange(skip_fwd(tail, 0, CharClass::Newline), tail.len() as int)
}

/// rc text with rig's block cut out (what precedes it, then what follows it
/// ending in a line feed, blank runs collapsed), or `None` when the text has
/// no begin marker, no end marker, or the end before the begin.
pub open spec fn spec_strip_rig_block(e: Seq<char>) -> Option<Seq<char>> {
    let s = find(e, BEGIN@);
    let t = find(e, END@);
    if s < 0 || t < 0 || t < s {
        None
    } else {
        let rest = after_block(e, t);
        let kept = if rest.len() > 0 {
            e.subrange(0, s) + rest + if rest.last() == '\n' {
                seq![]
            } else {
                seq!['\n']
            }
        } else {
            e.subrange(0, s)
        };
        Some(collapse_blank_lines(kept))
    }
}

/// Cuts rig's block out of the text of an rc file.
pub fn strip_rig_block(existing: &str) -> (r: Option<String>)
    ensures
        match r {
            Some(t) => spec_strip_rig_block(existing@) == Some(t@),
            None => spec_strip_rig_block(existing@) is None,
        },
{
    let e = chars_of(existing);
    let b = chars_of(BEGIN);
    let en = chars_of(END);
    let start = match find_chars(e.as_slice(), b.as_slice()) {
        Some(i) => i,
        None => return None,
    };
    let end = match find_chars(e.as_slice(), en.as_slice()) {
        Some(i) => i,
        None => return None,
    };
    if end < start {
        return None;
    }
    proof {
        crate::text::lemma_find_from(e@, en@, 0);
        assert(find(e@, en@) == end as int);
        assert(end + en.len() <= e.len());
    }
    let tail = copy_range(e.as_slice(), end + en.len(), e.len());
    let k = skip_fwd_exec(tail.as_slice(), 0, CharClass::Newline);
    let rest = copy_range(tail.as_slice(), k, tail.len());
    let mut kept = copy_range(e.as_slice(), 0, start);
    let ghost prefix = kept@;
    if rest.len() > 0 {
        let mut j: usize = 0;
        while j < rest.len()
            invariant
                j <= rest.len(),
                kept@ == prefix + rest@.subrange(0, j as int),
            decreases rest.len() - j,
        {
            kept.push(rest[j]);
            j = j + 1;
            assert(kept@ =~= prefix + rest@.subrange(0, j as int));
        }
        assert(rest@.subrange(0, rest.len() as int) =~= rest@);
        if rest[rest.len() - 1] != '\n' {
            kept.push('\n');
            assert(kept@ =~= prefix + rest@ + seq!['\n']);
        } else {
            assert(kept@ =~= prefix + rest@ + Seq::<char>::empty());
        }
    }
    let out = collapse_blank_lines_exec(kept.as_slice());
    Some(string_of(out.as_slice()))
}

/// `x` is the name after `prefix` of one of the entries.
pub open spec fn tagged_name(entries: Seq<Seq<char>>, prefix: Seq<char>, x: Seq<char>) -> bool {
    x.len() > 0 && exists|i: int|
        0 <= i < entries.len() && starts_with(#[trigger] entries[i], prefix)
            && entries[i].subrange(prefix.len() as int, entries[i].len() as int) == x
}

fn names_with_prefix(entries: &[String], prefix: &str) -> (out: Vec<String>)
    ensures
        strictly_sorted_lex(views(out@)),
        forall|x: Seq<char>| views(out@).contains(x) <==> tagged_name(views(entries@), prefix@, x),
{
    let p = chars_of(prefix);
    let mut acc: Vec<String> = Vec::new();
    let mut i: usize = 0;
    while i < entries.len()
        invariant
            i <= entries.len(),
            p@ == prefix@,
            forall|x: Seq<char>| views(acc@).contains(x) <==> (x.len() > 0 && exists|k: int|
                0 <= k < i && starts_with(#[trigger] views(entries@)[k], prefix@)
                    && views(entries@)[k].subrange(prefix@.len() as int, views(entries@)[k].len() as int) == x),
        decreases entries.len() - i,
    {
        let e = chars_of(entries[i].as_str());
        assert(views(entries@)[i as int] == e@);
        let ghost before = views(acc@);
        if starts_with_chars(e.as_slice(), p.as_slice()) && e.len() > p.len() {
            let name = copy_range(e.as_slice(), p.len(), e.len());
            acc.push(string_of(name.as_slice()));
            proof {
                assert(views(acc@) =~= before.push(name@));
                assert forall|x: Seq<char>| views(acc@).contains(x) <==> (x.len() > 0 && exists|k: int|
                    0 <= k < i + 1 && starts_with(#[trigger] views(entries@)[k], prefix@)
                        && views(entries@)[k].subrange(prefix@.len() as int, views(entries@)[k].len() as int) == x) by {
                    if views(acc@).contains(x) {
                        let j = choose|j: int| 0 <= j < views(acc@).len() && views(acc@)[j] == x;
                        if j < before.len() {
                            assert(before[j] == x);
                            assert(before.contains(x));
                        } else {
                            assert(x == name@);
                        }
                    }
                    if x.len() > 0 && exists|k: int|
                        0 <= k < i + 1 && starts_with(#[trigger] views(entries@)[k], prefix@)
                            && views(entries@)[k].subrange(prefix@.len() as int, views(entries@)[k].len() as int) == x {
                        let k = choose|k: int|
                            0 <= k < i + 1 && starts_with(#[trigger] views(entries@)[k], prefix@)
                                && views(entries@)[k].subrange(prefix@.len() as int, views(entries@)[k].len() as int) == x;
                        if k < i {
                            assert(before.contains(x));
                            let j = choose|j: int| 0 <= j < before.len() && before[j] == x;
                            assert(views(acc@)[j] == x);
                        } else {
                            assert(views(acc@)[before.len() as int] == x);
                        }
                    }
                }
            }
        } else {
            proof {
                assert forall|x: Seq<char>| views(acc@).contains(x) <==> (x.len() > 0 && exists|k: int|
                    0 <= k < i + 1 && starts_with(#[trigger] views(entries@)[k], prefix@)
                        && views(entries@)[k].subrange(prefix@.len() as int, views(entries@)[k].len() as int) == x) by {
                    if x.len() > 0 && exists|k: int|
                        0 <= k < i + 1 && starts_with(#[trigger] views(entries@)[k], prefix@)
                            && views(entries@)[k].subrange(prefix@.len() as int, views(entries@)[k].len() as int) == x {
                        let k = choose|k: int|
                            0 <= k < i + 1 && starts_with(#[trigger] views(entries@)[k], prefix@)
                                && views(entries@)[k].subrange(prefix@.len() as int, views(entries@)[k].len() as int) == x;
                        if k == i {
                            assert(x.len() == e@.len() - p@.len());
                        }
                    }
                }
            }
        }
        i = i + 1;
    }
    sort_dedup_strings(acc)
}

/// Formula and cask names of Brewfile entries (`brew:name`, `cask:name`),
/// each sorted and without repeats.
pub fn brew_formula_names(entries: &[String]) -> (r: (Vec<String>, Vec<String>))
    ensures
        strictly_sorted_lex(views(r.0@)),
        strictly_sorted_lex(views(r.1@)),
        forall|x: Seq<char>| views(r.0@).contains(x) <==> tagged_name(views(entries@), "brew:"@, x),
        forall|x: Seq<char>| views(r.1@).contains(x) <==> tagged_name(views(entries@), "cask:"@, x),
{
    (names_with_prefix(entries, "brew:"), names_with_prefix(entries, "cask:"))
}

/// The entries for `os` of all the sets, in order.
pub open spec fn entries_of(sets: Seq<PackageSetContents>, os: OsKind) -> Seq<Seq<char>>
    decreases sets.len(),
{
    if sets.len() == 0 {
        seq![]
    } else {
        entries_of(sets.drop_last(), os) + views(spec_packages_for_os(sets.last(), os))
    }
}

/// The entries for `os` of all the sets, in order.
pub fn entries_for_os(sets: &[PackageSetContents], os: OsKind) -> (out: Vec<String>)
    ensures
        views(out@) == entries_of(sets@, os),
{
    let mut acc: Vec<String> = Vec::new();
    let mut k: usize = 0;
    while k < sets.len()
        invariant
            k <= sets.len(),
            views(acc@) == entries_of(sets@.subrange(0, k as int), os),
        decreases sets.len() - k,
    {
        let list = packages_for_os(&sets[k], os);
        let mut j: usize = 0;
        let ghost start = views(acc@);
        while j < list.len()
            invariant
                j <= list.len(),
                list@ == spec_packages_for_os(sets@[k as int], os),
                views(acc@) == start + views(list@).subrange(0, j as int),
            decreases list.len() - j,
        {
            let ghost before = views(acc@);
            acc.push(list[j].clone());
            assert(views(acc@) =~= before.push(list@[j as int]@));
            assert(views(list@).subrange(0, j + 1) =~= views(list@).subrange(0, j as int).push(list@[j as int]@));
            j = j + 1;
        }
        assert(views(list@).subrange(0, list.len() as int) =~= views(list@));
        assert(sets@.subrange(0, k + 1).drop_last() =~= sets@.subrange(0, k as int));
        assert(sets@.subrange(0, k + 1).last() == sets@[k as int]);
        k = k + 1;
    }
    assert(sets@.subrange(0, sets.len() as int) =~= sets@);
    acc
}

/// The apt names of all the sets, sorted and without repeats.
pub fn apt_packages(sets: &[PackageSetContents]) -> (out: Vec<String>)
    ensures
        strictly_sorted_lex(views(out@)),
        forall|x: Seq<char>| views(out@).contains(x) <==> entries_of(sets@, OsKind::Linux).contains(x),
{
    sort_dedup_strings(entries_for_os(sets, OsKind::Linux))
}

} // verus!
