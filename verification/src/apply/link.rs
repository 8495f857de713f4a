//! Linking the shell templates: which template files a shell takes and from
//! where, the block rig keeps in the rc files, and how an rc file takes it.
use vstd::prelude::*;
use crate::apply::clean::{after_block, collapse_blank_lines, spec_strip_rig_block, BEGIN, END};
use crate::error::{msg_text, RigError};
use crate::paths::{
    config_dir_of, join, join_path, paths_equal, project_dirs, same_path, templates_dir,
};
use crate::schema::ShellKind;
use crate::text::{
    chars_of, concat2, concat3, copy_range, decimal, decimal_string, ends_with, find,
    find_chars, head_unique, lemma_find_first, lemma_find_from, lemma_find_in_prefix,
    lemma_none_in_head, lemma_skip_fwd_bounds, owned, push_char, push_str, skip_fwd,
    skip_fwd_exec, starts_with, string_of, CharClass,
};

verus! {

/// What linking the shell wrote: the config directory, the files written
/// there, the rc files that took rig's block, and where each template came
/// from (`common←overlay`, ...).
pub struct LinkReport {
    pub config_dir: String,
    pub written: Vec<String>,
    pub touched_rcs: Vec<String>,
    pub sources: Vec<String>,
}

/// rig's configuration directory (`~/.config/rig` or the platform's
/// equivalent), or `.rig-config` when the home directory is unknown; never
/// empty, so files placed under it never land in the working directory.
pub fn config_dir() -> (out: String)
    ensures
        out@.len() > 0,
{
    match project_dirs() {
        Some(d) => config_dir_of(&d),
        None => {
            proof {
                reveal_strlit(".rig-config");
            }
            owned(".rig-config")
        },
    }
}

/// The files of one shell: the rc and login-profile names in the home
/// directory, their templates, and their names under the config directory.
pub struct ShellTemplates {
    pub rc_name: &'static str,
    pub profile_name: &'static str,
    pub template_rc: &'static str,
    pub template_profile: &'static str,
    pub rc_copy: &'static str,
    pub profile_copy: &'static str,
}

pub open spec fn templates_view(t: ShellTemplates) -> Seq<Seq<char>> {
    seq![t.rc_name@, t.profile_name@, t.template_rc@, t.template_profile@, t.rc_copy@, t.profile_copy@]
}

pub open spec fn spec_shell_templates(shell: ShellKind) -> Seq<Seq<char>> {
    match shell {
        ShellKind::Zsh => seq![
            ".zshrc"@,
            ".zprofile"@,
            "shell/zsh/zshrc"@,
            "shell/zsh/zprofile"@,
            "zshrc"@,
            "zprofile"@,
        ],
        ShellKind::Bash => seq![
            ".bashrc"@,
            ".bash_profile"@,
            "shell/bash/bashrc"@,
            "shell/bash/bash_profile"@,
            "bashrc"@,
            "bash_profile"@,
        ],
    }
}

pub fn shell_templates(shell: ShellKind) -> (t: ShellTemplates)
    ensures
        templates_view(t) == spec_shell_templates(shell),
{
    match shell {
        ShellKind::Zsh => ShellTemplates {
            rc_name: ".zshrc",
            profile_name: ".zprofile",
            template_rc: "shell/zsh/zshrc",
            template_profile: "shell/zsh/zprofile",
            rc_copy: "zshrc",
            profile_copy: "zprofile",
        },
        ShellKind::Bash => ShellTemplates {
            rc_name: ".bashrc",
            profile_name: ".bash_profile",
            template_rc: "shell/bash/bashrc",
            template_profile: "shell/bash/bash_profile",
            rc_copy: "bashrc",
            profile_copy: "bash_profile",
        },
    }
}

/// The overlay copy of a template path, under `root`.
pub open spec fn overlay_path(root: Seq<char>, rel: Seq<char>) -> Seq<char> {
    join_path(join_path(root, "overlay"@), rel)
}

/// The shipped copy of a template path, under `root`.
pub open spec fn template_path(root: Seq<char>, rel: Seq<char>) -> Seq<char> {
    join_path(join_path(root, "templates"@), rel)
}

/// Where a template may be: its overlay copy, then its shipped copy.
pub fn shell_file_candidates(root: &str, rel: &str) -> (r: (String, String))
    ensures
        r.0@ == overlay_path(root@, rel@),
        r.1@ == template_path(root@, rel@),
{
    let o = join(root, "overlay");
    let t = templates_dir(root);
    (join(o.as_str(), rel), join(t.as_str(), rel))
}

/// The error when neither copy of a template exists.
pub open spec fn missing_template_text(rel: Seq<char>) -> Seq<char> {
    "missing shell template: overlay/"@ + rel + " or templates/"@ + rel
}

/// The template file to copy for `rel`, and where it came from: the overlay
/// copy when it is a file, else the shipped one, else an error.
pub fn resolve_shell_file(root: &str, rel: &str, overlay_is_file: bool, template_is_file: bool) -> (r:
    Result<(String, &'static str), RigError>)
    ensures
        overlay_is_file ==> (r matches Ok((p, k)) && p@ == overlay_path(root@, rel@) && k@
            == "overlay"@),
        !overlay_is_file && template_is_file ==> (r matches Ok((p, k)) && p@ == template_path(
            root@,
            rel@,
        ) && k@ == "templates"@),
        !overlay_is_file && !template_is_file ==> (r matches Err(e) && msg_text(e) == Some(
            missing_template_text(rel@),
        )),
{
    let (o, t) = shell_file_candidates(root, rel);
    if overlay_is_file {
        Ok((o, "overlay"))
    } else if template_is_file {
        Ok((t, "templates"))
    } else {
        let mut m = owned("missing shell template: overlay/");
        push_str(&mut m, rel);
        push_str(&mut m, " or templates/");
        push_str(&mut m, rel);
        Err(RigError::Msg(m))
    }
}

/// `what←kind`, the note of where a linked file came from.
pub fn source_label(what: &str, kind: &str) -> (r: String)
    ensures
        r@ == what@ + "←"@ + kind@,
{
    concat3(what, "←", kind)
}

/// The directory a whole template tree (`shell/scripts`, ...) is copied from,
/// with its source note: the overlay tree when it is a directory, else the
/// shipped one, else nothing.
pub fn tree_source(root: &str, rel: &str, overlay_is_dir: bool, template_is_dir: bool) -> (r:
    Option<(String, String)>)
    ensures
        overlay_is_dir ==> (r matches Some((p, l)) && p@ == overlay_path(root@, rel@) && l@ == rel@
            + "←overlay"@),
        !overlay_is_dir && template_is_dir ==> (r matches Some((p, l)) && p@ == template_path(
            root@,
            rel@,
        ) && l@ == rel@ + "←templates"@),
        !overlay_is_dir && !template_is_dir ==> r is None,
{
    let (o, t) = shell_file_candidates(root, rel);
    if overlay_is_dir {
        Some((o, concat2(rel, "←overlay")))
    } else if template_is_dir {
        Some((t, concat2(rel, "←templates")))
    } else {
        None
    }
}

// ---------------------------------------------------------------------------
// The managed block
// ---------------------------------------------------------------------------

/// The rc file rig sources for `shell`.
pub open spec fn rc_file_name(shell: ShellKind) -> Seq<char> {
    match shell {
        ShellKind::Zsh => "zshrc"@,
        ShellKind::Bash => "bashrc"@,
    }
}

/// The lines that source the product rc (OMZ / p10k) when its marker exists.
pub open spec fn product_lines(rc: Seq<char>) -> Seq<char> {
    "# product rc (OMZ/p10k on workstation): touch \"$RIG_CONFIG/shell/use-product-rc\"\n"@
        + "[ -f \"$RIG_CONFIG/shell/use-product-rc\" ] && [ -f \"$RIG_CONFIG/shell/"@ + rc
        + "\" ] && . \"$RIG_CONFIG/shell/"@ + rc + "\"\n"@
}

/// The block rig writes into an rc file: it exports the root and the config
/// directory, sources `common.sh`, and (for the interactive rc) the product rc.
pub open spec fn spec_managed_snippet(root: Seq<char>, cfg: Seq<char>, shell: ShellKind, with_product_rc: bool) -> Seq<char> {
    BEGIN@ + "\n# managed by rig — do not edit this block\nexport RIG_ROOT=\""@ + root
        + "\"\nexport RIG_CONFIG=\""@ + cfg
        + "\"\n[ -f \"$RIG_CONFIG/shell/common.sh\" ] && . \"$RIG_CONFIG/shell/common.sh\"\n"@
        + (if with_product_rc {
        product_lines(rc_file_name(shell))
    } else {
        seq![]
    }) + END@ + "\n"@
}

pub fn managed_snippet(root: &str, cfg: &str, shell: ShellKind, with_product_rc: bool) -> (r: String)
    ensures
        r@ == spec_managed_snippet(root@, cfg@, shell, with_product_rc),
{
    let rc = match shell {
        ShellKind::Zsh => "zshrc",
        ShellKind::Bash => "bashrc",
    };
    let mut s = owned(BEGIN);
    push_str(&mut s, "\n# managed by rig — do not edit this block\nexport RIG_ROOT=\"");
    push_str(&mut s, root);
    push_str(&mut s, "\"\nexport RIG_CONFIG=\"");
    push_str(&mut s, cfg);
    push_str(&mut s, "\"\n[ -f \"$RIG_CONFIG/shell/common.sh\" ] && . \"$RIG_CONFIG/shell/common.sh\"\n");
    let ghost before = s@;
    if with_product_rc {
        push_str(
            &mut s,
            "# product rc (OMZ/p10k on workstation): touch \"$RIG_CONFIG/shell/use-product-rc\"\n",
        );
        push_str(&mut s, "[ -f \"$RIG_CONFIG/shell/use-product-rc\" ] && [ -f \"$RIG_CONFIG/shell/");
        push_str(&mut s, rc);
        push_str(&mut s, "\" ] && . \"$RIG_CONFIG/shell/");
        push_str(&mut s, rc);
        push_str(&mut s, "\"\n");
        assert(s@ =~= before + product_lines(rc_file_name(shell)));
    } else {
        assert(s@ =~= before + Seq::<char>::empty());
    }
    push_str(&mut s, END);
    push_str(&mut s, "\n");
    s
}

/// `s` with a line feed after it unless it already ends with one.
pub open spec fn end_line(s: Seq<char>) -> Seq<char> {
    if ends_with(s, "\n"@) {
        s
    } else {
        s.push('\n')
    }
}

/// The rc text once it holds `snippet`: an existing block (from the first
/// begin marker to the first end marker) is replaced and what followed it is
/// kept on its own lines; an empty file becomes the snippet; otherwise the
/// snippet is appended after a blank line.
pub open spec fn spec_snippet_body(e: Seq<char>, snippet: Seq<char>) -> Seq<char> {
    let s = find(e, BEGIN@);
    let t = find(e, END@);
    if s >= 0 && t >= 0 {
        let rest = after_block(e, t);
        let out = e.subrange(0, s) + snippet;
        if rest.len() > 0 {
            end_line(end_line(out) + rest)
        } else {
            out
        }
    } else if e.len() == 0 {
        snippet
    } else {
        end_line(e).push('\n') + snippet
    }
}

fn push_end_line(s: &mut String)
    ensures
        final(s)@ == end_line(old(s)@),
{
    proof {
        reveal_strlit("\n");
    }
    let c = chars_of(s.as_str());
    if c.len() > 0 && c[c.len() - 1] == '\n' {
        assert(c@.subrange(c@.len() - 1, c@.len() as int) =~= "\n"@);
    } else {
        push_char(s, '\n');
        assert(!ends_with(old(s)@, "\n"@)) by {
            if ends_with(old(s)@, "\n"@) {
                assert(c@[c@.len() - 1] == c@.subrange(c@.len() - 1, c@.len() as int)[0]);
            }
        }
    }
}

/// The text an rc file gets so that it holds `snippet` (see `spec_snippet_body`).
pub fn ensure_snippet_text(existing: &str, snippet: &str) -> (r: String)
    ensures
        r@ == spec_snippet_body(existing@, snippet@),
{
    let e = chars_of(existing);
    let b = chars_of(BEGIN);
    let en = chars_of(END);
    let start = find_chars(e.as_slice(), b.as_slice());
    let end = find_chars(e.as_slice(), en.as_slice());
    match (start, end) {
        (Some(s), Some(t)) => {
            proof {
                crate::text::lemma_find_from(e@, b@, 0);
                crate::text::lemma_find_from(e@, en@, 0);
                assert(find(e@, en@) == t as int);
                assert(t + en.len() <= e.len());
            }
            let tail = copy_range(e.as_slice(), t + en.len(), e.len());
            let k = skip_fwd_exec(tail.as_slice(), 0, CharClass::Newline);
            let rest = copy_range(tail.as_slice(), k, tail.len());
            let mut out = string_of(copy_range(e.as_slice(), 0, s).as_slice());
            push_str(&mut out, snippet);
            if rest.len() > 0 {
                push_end_line(&mut out);
                let rs = string_of(rest.as_slice());
                push_str(&mut out, rs.as_str());
                push_end_line(&mut out);
            }
            out
        },
        _ => {
            if e.len() == 0 {
                owned(snippet)
            } else {
                let mut out = owned(existing);
                push_end_line(&mut out);
                push_char(&mut out, '\n');
                push_str(&mut out, snippet);
                out
            }
        },
    }
}

// ---------------------------------------------------------------------------
// Linking twice, and undoing a link
// ---------------------------------------------------------------------------

/// A block as rig writes it: it opens with the begin marker, its only end
/// marker closes it, and a line feed follows.
pub open spec fn block_shaped(snip: Seq<char>) -> bool {
    &&& starts_with(snip, BEGIN@)
    &&& snip.len() > END@.len()
    &&& find(snip, END@) == snip.len() - END@.len() - 1
    &&& snip.last() == '\n'
}

/// rc text whose markers are in order: none at all, or a begin marker before
/// the first end marker.
pub open spec fn markers_in_order(e: Seq<char>) -> bool {
    (find(e, BEGIN@) < 0 && find(e, END@) < 0) || (0 <= find(e, BEGIN@) && find(e, BEGIN@) < find(
        e,
        END@,
    ))
}

proof fn lemma_markers()
    ensures
        head_unique(BEGIN@),
        head_unique(END@),
        BEGIN@[0] == '#',
        END@[0] == '#',
        forall|k: int| 0 <= k < BEGIN@.len() ==> #[trigger] BEGIN@[k] != '\n',
        forall|k: int| 0 <= k < END@.len() ==> #[trigger] END@[k] != '\n',
{
    reveal_strlit("# >>> begin rig >>>");
    reveal_strlit("# <<< end rig <<<");
}

proof fn lemma_ends_with_nl(s: Seq<char>)
    ensures
        ends_with(s, "\n"@) == (s.len() > 0 && s.last() == '\n'),
{
    reveal_strlit("\n");
    if s.len() > 0 {
        assert(s.subrange(s.len() - 1, s.len() as int)[0] == s.last());
        if s.last() == '\n' {
            assert(s.subrange(s.len() - 1, s.len() as int) =~= "\n"@);
        }
    }
}

proof fn lemma_end_line(x: Seq<char>, r: Seq<char>)
    requires
        r.len() > 0,
    ensures
        end_line(x + r) == x + end_line(r),
        end_line(end_line(r)) == end_line(r),
        end_line(r) == r + (if r.last() == '\n' {
            seq![]
        } else {
            seq!['\n']
        }),
        end_line(r).last() == '\n',
{
    lemma_ends_with_nl(x + r);
    lemma_ends_with_nl(r);
    lemma_ends_with_nl(end_line(r));
    assert((x + r).last() == r.last());
    if r.last() != '\n' {
        assert((x + r).push('\n') =~= x + r.push('\n'));
        assert(r.push('\n') =~= r + seq!['\n']);
    } else {
        assert(r =~= r + Seq::<char>::empty());
    }
}

/// A pattern without line feeds is not found in `a` with a line feed added
/// when it is not found in `a`.
proof fn lemma_none_after_nl(a: Seq<char>, p: Seq<char>)
    requires
        find(a, p) < 0,
        p.len() > 0,
        forall|k: int| 0 <= k < p.len() ==> #[trigger] p[k] != '\n',
    ensures
        find(a.push('\n'), p) < 0,
{
    let a2 = a.push('\n');
    lemma_find_from(a, p, 0);
    lemma_find_from(a2, p, 0);
    if find(a2, p) >= 0 {
        let k = find(a2, p);
        if k + p.len() <= a.len() {
            assert(a2.subrange(k, k + p.len()) =~= a.subrange(k, k + p.len()));
        } else {
            assert(a2.subrange(k, k + p.len())[p.len() - 1] == '\n');
        }
    }
}

proof fn lemma_no_markers_end_line(e: Seq<char>)
    requires
        find(e, BEGIN@) < 0,
        find(e, END@) < 0,
    ensures
        find(end_line(e).push('\n'), BEGIN@) < 0,
        find(end_line(e).push('\n'), END@) < 0,
{
    lemma_markers();
    if !ends_with(e, "\n"@) {
        lemma_none_after_nl(e, BEGIN@);
        lemma_none_after_nl(e, END@);
    }
    lemma_none_after_nl(end_line(e), BEGIN@);
    lemma_none_after_nl(end_line(e), END@);
}

/// In `pre + snip + post`, with no marker in `pre`, the markers found are those
/// of the block.
proof fn lemma_locate_block(pre: Seq<char>, snip: Seq<char>, post: Seq<char>)
    requires
        block_shaped(snip),
        find(pre, BEGIN@) < 0,
        find(pre, END@) < 0,
    ensures
        find(pre + snip + post, BEGIN@) == pre.len(),
        find(pre + snip + post, END@) == pre.len() + snip.len() - END@.len() - 1,
{
    lemma_markers();
    let body = pre + snip + post;
    let sp = snip + post;
    assert(body =~= pre + sp);
    assert(sp[0] == snip[0]);
    assert(snip[0] == snip.subrange(0, BEGIN@.len() as int)[0]);
    assert forall|k: int| 0 <= k < pre.len() implies #[trigger] body.subrange(
        k,
        k + BEGIN@.len(),
    ) != BEGIN@ by {
        lemma_none_in_head(pre, sp, BEGIN@, k);
    }
    assert(body.subrange(pre.len() as int, pre.len() + BEGIN@.len() as int) =~= snip.subrange(
        0,
        BEGIN@.len() as int,
    ));
    lemma_find_first(body, BEGIN@, pre.len() as int);
    let j = snip.len() - END@.len() - 1;
    let k0 = pre.len() + j;
    lemma_find_from(snip, END@, 0);
    assert forall|k: int| 0 <= k < k0 implies #[trigger] body.subrange(k, k + END@.len())
        != END@ by {
        if k < pre.len() {
            lemma_none_in_head(pre, sp, END@, k);
        } else {
            assert(body.subrange(k, k + END@.len()) =~= snip.subrange(
                k - pre.len(),
                k - pre.len() + END@.len(),
            ));
        }
    }
    assert(body.subrange(k0, k0 + END@.len()) =~= snip.subrange(j, j + END@.len()));
    lemma_find_first(body, END@, k0);
}

/// After the block in `pre + snip + post` comes `post`, when `post` does not
/// open with a line feed.
proof fn lemma_after_located_block(pre: Seq<char>, snip: Seq<char>, post: Seq<char>)
    requires
        block_shaped(snip),
        post.len() == 0 || post[0] != '\n',
    ensures
        after_block(pre + snip + post, pre.len() + snip.len() - END@.len() - 1) == post,
{
    let body = pre + snip + post;
    let t = pre.len() + snip.len() - END@.len() - 1;
    let tail = body.subrange(t + END@.len(), body.len() as int);
    assert(tail =~= seq!['\n'] + post);
    assert(skip_fwd(tail, 0, CharClass::Newline) == skip_fwd(tail, 1, CharClass::Newline));
    assert(skip_fwd(tail, 1, CharClass::Newline) == 1);
    assert(tail.subrange(1, tail.len() as int) =~= post);
}

/// The rc text after linking, cut where the block sits: what precedes the
/// block and what follows it.
proof fn lemma_linked_parts(e: Seq<char>, snip: Seq<char>) -> (r: (Seq<char>, Seq<char>))
    requires
        block_shaped(snip),
        markers_in_order(e),
    ensures
        spec_snippet_body(e, snip) == r.0 + snip + r.1,
        find(r.0, BEGIN@) < 0,
        find(r.0, END@) < 0,
        r.1.len() == 0 || (r.1[0] != '\n' && r.1.last() == '\n'),
        find(e, BEGIN@) >= 0 ==> r.0 == e.subrange(0, find(e, BEGIN@)) && r.1 == (if after_block(
            e,
            find(e, END@),
        ).len() > 0 {
            end_line(after_block(e, find(e, END@)))
        } else {
            seq![]
        }),
        find(e, BEGIN@) < 0 && e.len() == 0 ==> r.0 == Seq::<char>::empty() && r.1 == Seq::<
            char,
        >::empty(),
        find(e, BEGIN@) < 0 && e.len() > 0 ==> r.0 == end_line(e).push('\n') && r.1 == Seq::<
            char,
        >::empty(),
{
    lemma_markers();
    lemma_ends_with_nl(snip);
    let s = find(e, BEGIN@);
    let t = find(e, END@);
    if s >= 0 && t >= 0 {
        lemma_find_from(e, BEGIN@, 0);
        lemma_find_from(e, END@, 0);
        lemma_find_in_prefix(e, BEGIN@, s);
        lemma_find_in_prefix(e, END@, s);
        let pre = e.subrange(0, s);
        let rest = after_block(e, t);
        let tail = e.subrange(t + END@.len(), e.len() as int);
        lemma_skip_fwd_bounds(tail, 0, CharClass::Newline);
        lemma_ends_with_nl(pre + snip);
        assert((pre + snip).last() == snip.last());
        assert(end_line(pre + snip) == pre + snip);
        if rest.len() > 0 {
            assert(rest[0] == tail[skip_fwd(tail, 0, CharClass::Newline)]);
            lemma_end_line(pre + snip, rest);
            assert(end_line(rest)[0] == rest[0]);
            (pre, end_line(rest))
        } else {
            assert(pre + snip =~= pre + snip + Seq::<char>::empty());
            (pre, seq![])
        }
    } else if e.len() == 0 {
        assert(snip =~= Seq::<char>::empty() + snip + Seq::<char>::empty());
        assert(find(Seq::<char>::empty(), BEGIN@) < 0);
        assert(find(Seq::<char>::empty(), END@) < 0);
        (seq![], seq![])
    } else {
        lemma_no_markers_end_line(e);
        let pre = end_line(e).push('\n');
        assert(pre + snip =~= pre + snip + Seq::<char>::empty());
        (pre, seq![])
    }
}

/// Linking an rc file that already holds rig's block leaves it as it is:
/// applying again does not grow the file.
pub proof fn law_snippet_idempotent(e: Seq<char>, snip: Seq<char>)
    requires
        block_shaped(snip),
        markers_in_order(e),
    ensures
        spec_snippet_body(spec_snippet_body(e, snip), snip) == spec_snippet_body(e, snip),
{
    lemma_markers();
    let (pre, post) = lemma_linked_parts(e, snip);
    let body = pre + snip + post;
    lemma_locate_block(pre, snip, post);
    lemma_after_located_block(pre, snip, post);
    lemma_find_from(body, END@, 0);
    assert(body.subrange(0, pre.len() as int) =~= pre);
    lemma_ends_with_nl(snip);
    lemma_ends_with_nl(pre + snip);
    assert((pre + snip).last() == snip.last());
    assert(end_line(pre + snip) == pre + snip);
    if post.len() > 0 {
        lemma_end_line(pre + snip, post);
        lemma_ends_with_nl(post);
        assert(end_line(post) == post);
        assert(body =~= pre + snip + post);
    } else {
        assert(body =~= pre + snip);
    }
}

/// Undoing a link leaves what undoing gave before it (for a file that had
/// rig's block), or the file as it was with the blank line that preceded the
/// block (for one that had none).
pub proof fn law_strip_after_link(e: Seq<char>, snip: Seq<char>)
    requires
        block_shaped(snip),
        markers_in_order(e),
    ensures
        spec_strip_rig_block(spec_snippet_body(e, snip)) == (if find(e, BEGIN@) >= 0 {
            spec_strip_rig_block(e)
        } else if e.len() == 0 {
            Some(Seq::<char>::empty())
        } else {
            Some(collapse_blank_lines(end_line(e).push('\n')))
        }),
{
    lemma_markers();
    let (pre, post) = lemma_linked_parts(e, snip);
    let body = pre + snip + post;
    lemma_locate_block(pre, snip, post);
    lemma_after_located_block(pre, snip, post);
    assert(body.subrange(0, pre.len() as int) =~= pre);
    let kept = if post.len() > 0 {
        pre + post + if post.last() == '\n' {
            seq![]
        } else {
            seq!['\n']
        }
    } else {
        pre
    };
    assert(kept =~= pre + post);
    assert(spec_strip_rig_block(body) == Some(collapse_blank_lines(pre + post)));
    if find(e, BEGIN@) >= 0 {
        let t = find(e, END@);
        let rest = after_block(e, t);
        assert(t > find(e, BEGIN@));
        if rest.len() > 0 {
            lemma_end_line(seq![], rest);
            assert(e.subrange(0, find(e, BEGIN@)) + rest + (if rest.last() == '\n' {
                seq![]
            } else {
                seq!['\n']
            }) == pre + post);
        } else {
            assert(pre + post =~= pre);
        }
        assert(spec_strip_rig_block(e) == Some(collapse_blank_lines(pre + post)));
    } else if e.len() == 0 {
        assert(pre + post =~= Seq::<char>::empty());
        assert(collapse_blank_lines(Seq::<char>::empty()) =~= Seq::<char>::empty());
    } else {
        assert(pre + post =~= pre);
    }
}

// ---------------------------------------------------------------------------
// ~/.p10k.zsh
// ---------------------------------------------------------------------------

/// What to do before pointing `dst` at `src` with a symlink.
pub enum SymlinkAction {
    /// `dst` already links to `src`.
    Keep,
    /// Nothing is at `dst`: link.
    Create,
    /// `dst` is another symlink: remove it, then link.
    ReplaceLink,
    /// `dst` is a file: move it to this backup path, then link.
    BackUp(String),
    /// `dst` is something else (a directory): leave it and fail.
    Refuse(RigError),
}

/// The backup name of a file moved aside at `secs` seconds since the epoch.
pub open spec fn backup_path(dst: Seq<char>, secs: nat) -> Seq<char> {
    dst + ".bak."@ + decimal(secs)
}

/// The step before symlinking `src` at `dst`, given what is at `dst` now: a
/// symlink (and where it points, when that could be read), a file, or
/// anything else; `secs` names a backup.
pub fn symlink_action(
    src: &str,
    dst: &str,
    is_symlink: bool,
    link_target: Option<&str>,
    is_file: bool,
    exists: bool,
    secs: u64,
) -> (a: SymlinkAction)
    ensures
        is_symlink ==> (match link_target {
            Some(cur) => if same_path(cur@, src@) {
                a is Keep
            } else {
                a is ReplaceLink
            },
            None => a is ReplaceLink,
        }),
        !is_symlink && is_file ==> (a matches SymlinkAction::BackUp(p) && p@ == backup_path(
            dst@,
            secs as nat,
        )),
        !is_symlink && !is_file && exists ==> (a matches SymlinkAction::Refuse(e) && msg_text(e)
            == Some("refusing to replace non-file: "@ + dst@)),
        !is_symlink && !is_file && !exists ==> a is Create,
{
    if is_symlink {
        match link_target {
            Some(cur) => {
                if paths_equal(cur, src) {
                    SymlinkAction::Keep
                } else {
                    SymlinkAction::ReplaceLink
                }
            },
            None => SymlinkAction::ReplaceLink,
        }
    } else if is_file {
        let mut p = concat2(dst, ".bak.");
        let n = decimal_string(secs);
        push_str(&mut p, n.as_str());
        SymlinkAction::BackUp(p)
    } else if exists {
        SymlinkAction::Refuse(RigError::Msg(concat2("refusing to replace non-file: ", dst)))
    } else {
        SymlinkAction::Create
    }
}

} // verus!
