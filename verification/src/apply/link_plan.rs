//! Linking the shell as a plan: from what the caller found on disk (which
//! template copies are files, which trees are directories and their files,
//! the home directory, what stands at `~/.p10k.zsh`), the file changes to
//! make in order and what the link reports, or the error it stops on.
use vstd::prelude::*;
use crate::apply::link::{
    backup_path, block_shaped, law_snippet_idempotent, managed_snippet, markers_in_order, spec_snippet_body, missing_template_text, overlay_path, resolve_shell_file,
    shell_templates, spec_managed_snippet, spec_shell_templates, symlink_action, template_path,
    templates_view, tree_source, LinkReport, SymlinkAction,
};
use crate::apply::tmux::{
    missing_tmux_template, overlay_tmux_conf, resolve_src, template_tmux_conf, tmux_conf_path,
    tmux_report, tmux_scripts_source, TmuxReport,
};
use crate::apply::cursor::{
    cursor_candidates_spec, cursor_files, cursor_report, cursor_user_dir, install_action,
    notes_upto, resolve_src as cursor_resolve_src, spec_cursor_user_dir, src_kind, CursorOutcome,
    InstallAction,
};
use crate::apply::features::StepReport;
use crate::error::{msg_text, RigError};
use crate::schema::OsKind;
use crate::paths::{join, join_path, path_has_prefix, same_path};
use crate::schema::ShellKind;
use crate::text::{concat2, decimal, join as join_text, owned, views};

verus! {

/// Whether the overlay and the shipped copy of a template are files.
#[derive(Clone, Copy)]
pub struct TemplateProbe {
    pub overlay_is_file: bool,
    pub template_is_file: bool,
}

/// Whether the overlay and the shipped copy of a template tree are
/// directories, and the names of the files in the one that is used.
pub struct TreeProbe {
    pub overlay_is_dir: bool,
    pub template_is_dir: bool,
    pub files: Vec<String>,
}

/// What stands at a path to be symlinked.
pub struct LinkTargetProbe {
    pub is_symlink: bool,
    /// Where the symlink points, when it could be read.
    pub target: Option<String>,
    pub is_file: bool,
    pub exists: bool,
}

/// What the caller found before linking the shell.
pub struct LinkProbes {
    pub common: TemplateProbe,
    pub rc: TemplateProbe,
    pub profile: TemplateProbe,
    pub p10k: TemplateProbe,
    pub tips: TemplateProbe,
    pub scripts: TreeProbe,
    pub fastfetch: TreeProbe,
    /// `$HOME`, when set.
    pub home: Option<String>,
    /// What stands at `~/.p10k.zsh`.
    pub p10k_link: LinkTargetProbe,
    /// Seconds since the epoch, to name a backup.
    pub secs: u64,
}

/// A file change of the link, done in order.
pub enum LinkOp {
    CreateDir(String),
    /// Copy a file, creating the destination's directory first.
    Copy { from: String, to: String },
    RemoveFile(String),
    Rename { from: String, to: String },
    Symlink { src: String, dst: String },
    /// Write an empty file.
    WriteEmpty(String),
    /// Give the file at `path` rig's block (`ensure_snippet_text` of its
    /// current text, empty when it is not a file), creating its directory.
    EnsureSnippet { path: String, snippet: String },
    /// Make each file in a directory executable, when it can be listed.
    MakeExecutable(String),
    /// Make one file executable, when it can be.
    Chmod(String),
}

/// A file change as values.
pub enum LinkStep {
    CreateDir(Seq<char>),
    Copy(Seq<char>, Seq<char>),
    RemoveFile(Seq<char>),
    Rename(Seq<char>, Seq<char>),
    Symlink(Seq<char>, Seq<char>),
    WriteEmpty(Seq<char>),
    EnsureSnippet(Seq<char>, Seq<char>),
    MakeExecutable(Seq<char>),
    Chmod(Seq<char>),
}

impl View for LinkOp {
    type V = LinkStep;

    open spec fn view(&self) -> LinkStep {
        match self {
            LinkOp::CreateDir(p) => LinkStep::CreateDir(p@),
            LinkOp::Copy { from, to } => LinkStep::Copy(from@, to@),
            LinkOp::RemoveFile(p) => LinkStep::RemoveFile(p@),
            LinkOp::Rename { from, to } => LinkStep::Rename(from@, to@),
            LinkOp::Symlink { src, dst } => LinkStep::Symlink(src@, dst@),
            LinkOp::WriteEmpty(p) => LinkStep::WriteEmpty(p@),
            LinkOp::EnsureSnippet { path, snippet } => LinkStep::EnsureSnippet(path@, snippet@),
            LinkOp::MakeExecutable(p) => LinkStep::MakeExecutable(p@),
            LinkOp::Chmod(p) => LinkStep::Chmod(p@),
        }
    }
}

pub open spec fn op_views(s: Seq<LinkOp>) -> Seq<LinkStep> {
    s.map_values(|o: LinkOp| o@)
}

/// The plan: the changes to make in order (stopping at the first that
/// fails, as an I/O error), then the outcome.
pub struct LinkPlan {
    pub ops: Vec<LinkOp>,
    pub outcome: Result<LinkReport, RigError>,
}

/// What the link has done and noted so far.
pub struct Sofar {
    pub ops: Seq<LinkStep>,
    pub written: Seq<Seq<char>>,
    pub sources: Seq<Seq<char>>,
}

pub open spec fn more(s: Sofar, ops: Seq<LinkStep>, written: Seq<Seq<char>>, sources: Seq<Seq<char>>) -> Sofar {
    Sofar { ops: s.ops + ops, written: s.written + written, sources: s.sources + sources }
}

/// Where a template is taken from: the overlay copy when it is a file, else
/// the shipped copy, else nowhere.
pub open spec fn resolved(root: Seq<char>, rel: Seq<char>, p: TemplateProbe) -> Option<(Seq<char>, Seq<char>)> {
    if p.overlay_is_file {
        Some((overlay_path(root, rel), "overlay"@))
    } else if p.template_is_file {
        Some((template_path(root, rel), "templates"@))
    } else {
        None
    }
}

/// Copying one template into the shell directory as `name`, noted as `what`.
pub open spec fn copied(s: Sofar, from: (Seq<char>, Seq<char>), shell_dir: Seq<char>, name: Seq<char>, what: Seq<char>) -> Sofar {
    let dst = join_path(shell_dir, name);
    more(s, seq![LinkStep::Copy(from.0, dst)], seq![dst], seq![what + "←"@ + from.1])
}

/// The shell directory, then the common profile, the rc and the login
/// profile; an error names the first template that is missing.
pub open spec fn base_phase(root: Seq<char>, cfg: Seq<char>, shell: ShellKind, p: LinkProbes) -> (Sofar, Option<Seq<char>>) {
    let sd = join_path(cfg, "shell"@);
    let t = spec_shell_templates(shell);
    let s0 = Sofar { ops: seq![LinkStep::CreateDir(sd)], written: seq![], sources: seq![] };
    match resolved(root, "shell/common/profile.sh"@, p.common) {
        None => (s0, Some(missing_template_text("shell/common/profile.sh"@))),
        Some(c) => {
            let s1 = copied(s0, c, sd, "common.sh"@, "common"@);
            match (resolved(root, t[2], p.rc), resolved(root, t[3], p.profile)) {
                (None, _) => (s1, Some(missing_template_text(t[2]))),
                (Some(_), None) => (s1, Some(missing_template_text(t[3]))),
                (Some(r), Some(f)) => (copied(copied(s1, r, sd, t[4], "rc"@), f, sd, t[5], "profile"@), None),
            }
        },
    }
}

/// The changes that point `dst` at `src`, given what stands at `dst`; an
/// error when it is neither a symlink nor a file.
pub open spec fn relink(src: Seq<char>, dst: Seq<char>, l: LinkTargetProbe, secs: nat) -> (Seq<LinkStep>, Option<Seq<char>>) {
    if l.is_symlink {
        match l.target {
            Some(cur) if same_path(cur@, src) => (seq![], None),
            _ => (seq![LinkStep::RemoveFile(dst), LinkStep::Symlink(src, dst)], None),
        }
    } else if l.is_file {
        (seq![LinkStep::Rename(dst, backup_path(dst, secs)), LinkStep::Symlink(src, dst)], None)
    } else if l.exists {
        (seq![], Some("refusing to replace non-file: "@ + dst))
    } else {
        (seq![LinkStep::Symlink(src, dst)], None)
    }
}

/// The copies of a template tree's files into `dst_dir`.
pub open spec fn tree_copies(from: Seq<char>, dst_dir: Seq<char>, files: Seq<Seq<char>>) -> Seq<LinkStep> {
    Seq::new(files.len(), |i: int| LinkStep::Copy(join_path(from, files[i]), join_path(dst_dir, files[i])))
}

/// A template tree copied into the shell directory: its source note, the
/// directory, and a copy of each file; nothing when neither copy of the tree
/// is a directory.
pub open spec fn tree_phase(s: Sofar, root: Seq<char>, rel: Seq<char>, sd: Seq<char>, name: Seq<char>, t: TreeProbe) -> Sofar {
    let dst = join_path(sd, name);
    let files = views(t.files@);
    let from = if t.overlay_is_dir {
        overlay_path(root, rel)
    } else {
        template_path(root, rel)
    };
    let kind = if t.overlay_is_dir {
        "←overlay"@
    } else {
        "←templates"@
    };
    if t.overlay_is_dir || t.template_is_dir {
        more(
            s,
            seq![LinkStep::CreateDir(dst)] + tree_copies(from, dst, files),
            Seq::new(files.len(), |i: int| join_path(dst, files[i])),
            seq![rel + kind],
        )
    } else {
        s
    }
}

/// For zsh: the p10k config (and `~/.p10k.zsh` pointing at it), the script
/// and fastfetch trees, the tips, and the scripts made executable.
pub open spec fn zsh_phase(s: Sofar, root: Seq<char>, cfg: Seq<char>, p: LinkProbes) -> (Sofar, Option<Seq<char>>) {
    let sd = join_path(cfg, "shell"@);
    let p10k_dst = join_path(sd, "p10k.zsh"@);
    let (s1, err) = match resolved(root, "shell/zsh/p10k.zsh"@, p.p10k) {
        None => (s, None),
        Some(k) => {
            let c = copied(s, k, sd, "p10k.zsh"@, "p10k"@);
            match p.home {
                None => (c, Some("HOME is not set"@)),
                Some(h) => {
                    let hp = join_path(h@, ".p10k.zsh"@);
                    let (ops, e) = relink(p10k_dst, hp, p.p10k_link, p.secs as nat);
                    match e {
                        Some(m) => (more(c, ops, seq![], seq![]), Some(m)),
                        None => (more(c, ops, seq![hp], seq![]), None),
                    }
                },
            }
        },
    };
    match err {
        Some(m) => (s1, Some(m)),
        None => {
            let s2 = tree_phase(s1, root, "shell/scripts"@, sd, "scripts"@, p.scripts);
            let s3 = tree_phase(s2, root, "shell/fastfetch"@, sd, "fastfetch"@, p.fastfetch);
            let s4 = match resolved(root, "shell/tips.txt"@, p.tips) {
                None => s3,
                Some(k) => copied(s3, k, sd, "tips.txt"@, "tips"@),
            };
            (more(s4, seq![LinkStep::MakeExecutable(join_path(sd, "scripts"@))], seq![], seq![]), None)
        },
    }
}

/// The product-rc marker, then rig's block in the login profile and the rc.
pub open spec fn final_phase(
    s: Sofar,
    root: Seq<char>,
    cfg: Seq<char>,
    shell: ShellKind,
    product_rc: bool,
    p: LinkProbes,
) -> (Sofar, Option<(Seq<char>, Seq<char>)>, Option<Seq<char>>) {
    let sd = join_path(cfg, "shell"@);
    let marker = join_path(sd, "use-product-rc"@);
    let t = spec_shell_templates(shell);
    let s1 = if product_rc {
        more(s, seq![LinkStep::WriteEmpty(marker)], seq![marker], seq!["product-rc=on"@])
    } else {
        s
    };
    match p.home {
        None => (s1, None, Some("HOME is not set"@)),
        Some(h) => {
            let pp = join_path(h@, t[1]);
            let rp = join_path(h@, t[0]);
            (
                more(
                    s1,
                    seq![
                        LinkStep::EnsureSnippet(pp, spec_managed_snippet(root, cfg, shell, false)),
                        LinkStep::EnsureSnippet(rp, spec_managed_snippet(root, cfg, shell, true)),
                    ],
                    seq![],
                    seq![],
                ),
                Some((pp, rp)),
                None,
            )
        },
    }
}

/// The whole link: the changes in order, and either the report (config
/// directory, files written, rc files touched, sources) or the error text.
pub open spec fn spec_link_shell(root: Seq<char>, cfg: Seq<char>, shell: ShellKind, product_rc: bool, p: LinkProbes) -> (
    Seq<LinkStep>,
    Result<(Seq<Seq<char>>, Seq<Seq<char>>, Seq<Seq<char>>), Seq<char>>,
) {
    let (a, ea) = base_phase(root, cfg, shell, p);
    match ea {
        Some(m) => (a.ops, Err(m)),
        None => {
            let (b, eb) = if shell == ShellKind::Zsh {
                zsh_phase(a, root, cfg, p)
            } else {
                (a, None)
            };
            match eb {
                Some(m) => (b.ops, Err(m)),
                None => {
                    let (c, touched, ec) = final_phase(b, root, cfg, shell, product_rc, p);
                    match (ec, touched) {
                        (None, Some((pp, rp))) => (c.ops, Ok((c.written, seq![pp, rp], c.sources))),
                        (Some(m), _) => (c.ops, Err(m)),
                        _ => (c.ops, Err(seq![])),
                    }
                },
            }
        },
    }
}

/// The home directory a probe found, as text.
pub open spec fn home_view(p: LinkProbes) -> Option<Seq<char>> {
    match p.home {
        Some(h) => Some(h@),
        None => None,
    }
}

proof fn lemma_link_shell_ends(root: Seq<char>, cfg: Seq<char>, shell: ShellKind, product_rc: bool, p: LinkProbes)
    requires
        spec_link_shell(root, cfg, shell, product_rc, p).1 is Ok,
    ensures
        home_view(p) is Some,
        ({
            let r = spec_link_shell(root, cfg, shell, product_rc, p);
            let h = home_view(p)->0;
            let t = spec_shell_templates(shell);
            let pp = join_path(h, t[1]);
            let rp = join_path(h, t[0]);
            &&& r.0.len() >= 2
            &&& r.0.subrange(r.0.len() - 2, r.0.len() as int) == seq![
                LinkStep::EnsureSnippet(pp, spec_managed_snippet(root, cfg, shell, false)),
                LinkStep::EnsureSnippet(rp, spec_managed_snippet(root, cfg, shell, true)),
            ]
            &&& r.1->Ok_0.1 == seq![pp, rp]
        }),
{
    let (a, ea) = base_phase(root, cfg, shell, p);
    let (b, eb) = if shell == ShellKind::Zsh {
        zsh_phase(a, root, cfg, p)
    } else {
        (a, None)
    };
    let (c, touched, ec) = final_phase(b, root, cfg, shell, product_rc, p);
    let sd = join_path(cfg, "shell"@);
    let marker = join_path(sd, "use-product-rc"@);
    let s1 = if product_rc {
        more(b, seq![LinkStep::WriteEmpty(marker)], seq![marker], seq!["product-rc=on"@])
    } else {
        b
    };
    match p.home {
        Some(h) => {
            let t = spec_shell_templates(shell);
            let tail = seq![
                LinkStep::EnsureSnippet(join_path(h@, t[1]), spec_managed_snippet(root, cfg, shell, false)),
                LinkStep::EnsureSnippet(join_path(h@, t[0]), spec_managed_snippet(root, cfg, shell, true)),
            ];
            assert(c.ops == s1.ops + tail);
            assert(c.ops.subrange(c.ops.len() - 2, c.ops.len() as int) =~= tail);
        },
        None => {},
    }
}

/// Linking the shell twice leaves the rc files as the first link left them:
/// any two links that succeed for the same root, configuration directory,
/// shell and home end by giving the login profile and the rc the same block,
/// and giving a file that block again changes nothing. This holds when the
/// files' markers are in order and the blocks are shaped as rig writes them
/// (neither path holds rig's end marker).
pub proof fn law_link_shell_twice(
    root: Seq<char>,
    cfg: Seq<char>,
    shell: ShellKind,
    product_rc: bool,
    first: LinkProbes,
    second: LinkProbes,
    profile_text: Seq<char>,
    rc_text: Seq<char>,
)
    requires
        home_view(first) == home_view(second),
        spec_link_shell(root, cfg, shell, product_rc, first).1 is Ok,
        spec_link_shell(root, cfg, shell, product_rc, second).1 is Ok,
        block_shaped(spec_managed_snippet(root, cfg, shell, false)),
        block_shaped(spec_managed_snippet(root, cfg, shell, true)),
        markers_in_order(profile_text),
        markers_in_order(rc_text),
    ensures
        ({
            let r1 = spec_link_shell(root, cfg, shell, product_rc, first);
            let r2 = spec_link_shell(root, cfg, shell, product_rc, second);
            let sp = spec_managed_snippet(root, cfg, shell, false);
            let sr = spec_managed_snippet(root, cfg, shell, true);
            &&& r1.1->Ok_0.1 == r2.1->Ok_0.1
            &&& r1.0.subrange(r1.0.len() - 2, r1.0.len() as int) == seq![
                LinkStep::EnsureSnippet(r1.1->Ok_0.1[0], sp),
                LinkStep::EnsureSnippet(r1.1->Ok_0.1[1], sr),
            ]
            &&& r2.0.subrange(r2.0.len() - 2, r2.0.len() as int) == r1.0.subrange(r1.0.len() - 2, r1.0.len() as int)
            &&& spec_snippet_body(spec_snippet_body(profile_text, sp), sp) == spec_snippet_body(profile_text, sp)
            &&& spec_snippet_body(spec_snippet_body(rc_text, sr), sr) == spec_snippet_body(rc_text, sr)
        }),
{
    lemma_link_shell_ends(root, cfg, shell, product_rc, first);
    lemma_link_shell_ends(root, cfg, shell, product_rc, second);
    law_snippet_idempotent(profile_text, spec_managed_snippet(root, cfg, shell, false));
    law_snippet_idempotent(rc_text, spec_managed_snippet(root, cfg, shell, true));
}

/// The plan's outcome matches a spec outcome.
pub open spec fn outcome_is(
    o: Result<LinkReport, RigError>,
    cfg: Seq<char>,
    want: Result<(Seq<Seq<char>>, Seq<Seq<char>>, Seq<Seq<char>>), Seq<char>>,
) -> bool {
    match (o, want) {
        (Ok(r), Ok((w, t, s))) => r.config_dir@ == cfg && views(r.written@) == w && views(r.touched_rcs@)
            == t && views(r.sources@) == s,
        (Err(e), Err(m)) => msg_text(e) == Some(m),
        _ => false,
    }
}

/// What the plan has built so far.
struct Acc {
    ops: Vec<LinkOp>,
    written: Vec<String>,
    sources: Vec<String>,
}

spec fn acc_view(a: Acc) -> Sofar {
    Sofar { ops: op_views(a.ops@), written: views(a.written@), sources: views(a.sources@) }
}

fn push_op(a: &mut Acc, op: LinkOp)
    ensures
        acc_view(*final(a)) == more(acc_view(*old(a)), seq![op@], seq![], seq![]),
{
    let ghost b = acc_view(*a);
    a.ops.push(op);
    assert(acc_view(*a).ops =~= b.ops + seq![op@]);
    assert(acc_view(*a).written =~= b.written + Seq::<Seq<char>>::empty());
    assert(acc_view(*a).sources =~= b.sources + Seq::<Seq<char>>::empty());
}

fn copy_template(a: &mut Acc, from: (String, &'static str), sd: &str, name: &str, what: &str)
    ensures
        acc_view(*final(a)) == copied(acc_view(*old(a)), (from.0@, from.1@), sd@, name@, what@),
{
    let ghost b = acc_view(*a);
    let ghost f0 = from.0@;
    let dst = join(sd, name);
    let mut label = concat2(what, "←");
    crate::text::push_str(&mut label, from.1);
    let ghost dv = dst@;
    let ghost lv = label@;
    a.ops.push(LinkOp::Copy { from: from.0, to: owned(dst.as_str()) });
    a.written.push(dst);
    a.sources.push(label);
    assert(acc_view(*a).ops =~= b.ops + seq![LinkStep::Copy(f0, dv)]);
    assert(acc_view(*a).written =~= b.written + seq![dv]);
    assert(acc_view(*a).sources =~= b.sources + seq![lv]);
}

fn base(a: &mut Acc, root: &str, cfg: &str, shell: ShellKind, p: &LinkProbes) -> (e: Option<RigError>)
    requires
        acc_view(*old(a)).ops.len() == 0,
        acc_view(*old(a)).written.len() == 0,
        acc_view(*old(a)).sources.len() == 0,
    ensures
        acc_view(*final(a)) == base_phase(root@, cfg@, shell, *p).0,
        match e {
            Some(x) => base_phase(root@, cfg@, shell, *p).1 == msg_text(x) && msg_text(x) is Some,
            None => base_phase(root@, cfg@, shell, *p).1 is None,
        },
{
    let sd = join(cfg, "shell");
    let ghost s0 = Sofar { ops: seq![LinkStep::CreateDir(sd@)], written: seq![], sources: seq![] };
    push_op(a, LinkOp::CreateDir(owned(sd.as_str())));
    assert(acc_view(*a) =~= s0);
    let t = shell_templates(shell);
    let ghost tv = spec_shell_templates(shell);
    proof {
        reveal_strlit("shell/common/profile.sh");
    }
    let c = match resolve_shell_file(root, "shell/common/profile.sh", p.common.overlay_is_file, p.common.template_is_file) {
        Ok(c) => c,
        Err(e) => {
            return Some(e);
        },
    };
    copy_template(a, c, sd.as_str(), "common.sh", "common");
    let r = match resolve_shell_file(root, t.template_rc, p.rc.overlay_is_file, p.rc.template_is_file) {
        Ok(r) => r,
        Err(e) => {
            return Some(e);
        },
    };
    let f = match resolve_shell_file(root, t.template_profile, p.profile.overlay_is_file, p.profile.template_is_file) {
        Ok(f) => f,
        Err(e) => {
            return Some(e);
        },
    };
    copy_template(a, r, sd.as_str(), t.rc_copy, "rc");
    copy_template(a, f, sd.as_str(), t.profile_copy, "profile");
    None
}

fn copy_tree(a: &mut Acc, root: &str, rel: &str, sd: &str, name: &str, t: &TreeProbe)
    ensures
        acc_view(*final(a)) == tree_phase(acc_view(*old(a)), root@, rel@, sd@, name@, *t),
{
    let src = match tree_source(root, rel, t.overlay_is_dir, t.template_is_dir) {
        None => {
            return;
        },
        Some(s) => s,
    };
    let ghost b = acc_view(*a);
    let dst = join(sd, name);
    let ghost files = views(t.files@);
    let ghost from = src.0@;
    a.sources.push(src.1);
    push_op(a, LinkOp::CreateDir(owned(dst.as_str())));
    let ghost b1 = acc_view(*a);
    let mut i: usize = 0;
    while i < t.files.len()
        invariant
            i <= t.files.len(),
            files == views(t.files@),
            from == src.0@,
            acc_view(*a) == more(
                b1,
                tree_copies(from, dst@, files).subrange(0, i as int),
                Seq::new(i as nat, |k: int| join_path(dst@, files[k])),
                seq![],
            ),
        decreases t.files.len() - i,
    {
        let ghost c = acc_view(*a);
        let fname = t.files[i].as_str();
        assert(files[i as int] == fname@);
        let x = join(src.0.as_str(), fname);
        let y = join(dst.as_str(), fname);
        let ghost xv = x@;
        let ghost yv = y@;
        a.ops.push(LinkOp::Copy { from: x, to: owned(y.as_str()) });
        a.written.push(y);
        assert(acc_view(*a).ops =~= c.ops.push(LinkStep::Copy(xv, yv)));
        assert(acc_view(*a).written =~= c.written.push(yv));
        assert(tree_copies(from, dst@, files).subrange(0, i + 1) =~= tree_copies(from, dst@, files).subrange(0, i as int).push(LinkStep::Copy(xv, yv)));
        assert(acc_view(*a).ops =~= b1.ops + tree_copies(from, dst@, files).subrange(0, i + 1));
        assert(acc_view(*a).written =~= b1.written + Seq::new((i + 1) as nat, |k: int| join_path(dst@, files[k])));
        assert(acc_view(*a).sources =~= b1.sources + Seq::<Seq<char>>::empty());
        i = i + 1;
    }
    assert(tree_copies(from, dst@, files).subrange(0, files.len() as int) =~= tree_copies(from, dst@, files));
    assert(acc_view(*a).ops =~= b.ops + (seq![LinkStep::CreateDir(dst@)] + tree_copies(from, dst@, files)));
    assert(acc_view(*a).written =~= b.written + Seq::new(files.len(), |k: int| join_path(dst@, files[k])));
    assert(acc_view(*a).sources =~= b.sources + seq![src.1@]);
}

fn zsh_extras(a: &mut Acc, root: &str, cfg: &str, p: &LinkProbes) -> (e: Option<RigError>)
    ensures
        acc_view(*final(a)) == zsh_phase(acc_view(*old(a)), root@, cfg@, *p).0,
        match e {
            Some(x) => zsh_phase(acc_view(*old(a)), root@, cfg@, *p).1 == msg_text(x) && msg_text(x) is Some,
            None => zsh_phase(acc_view(*old(a)), root@, cfg@, *p).1 is None,
        },
{
    let ghost s = acc_view(*a);
    let sd = join(cfg, "shell");
    proof {
        reveal_strlit("shell/zsh/p10k.zsh");
        reveal_strlit("shell/tips.txt");
    }
    match resolve_shell_file(root, "shell/zsh/p10k.zsh", p.p10k.overlay_is_file, p.p10k.template_is_file) {
        Err(_) => {},
        Ok(k) => {
            let pd = join(sd.as_str(), "p10k.zsh");
            copy_template(a, k, sd.as_str(), "p10k.zsh", "p10k");
            let ghost c = acc_view(*a);
            let h = match &p.home {
                None => {
                    return Some(RigError::Msg(owned("HOME is not set")));
                },
                Some(h) => h,
            };
            let hp = join(h.as_str(), ".p10k.zsh");
            let l = &p.p10k_link;
            let tgt = match &l.target {
                Some(x) => Some(x.as_str()),
                None => None,
            };
            let ghost rl = relink(pd@, hp@, p.p10k_link, p.secs as nat);
            match symlink_action(pd.as_str(), hp.as_str(), l.is_symlink, tgt, l.is_file, l.exists, p.secs) {
                SymlinkAction::Keep => {
                    assert(acc_view(*a).ops =~= c.ops + rl.0);
                },
                SymlinkAction::Create => {
                    push_op(a, LinkOp::Symlink { src: owned(pd.as_str()), dst: owned(hp.as_str()) });
                    assert(acc_view(*a).ops =~= c.ops + rl.0);
                },
                SymlinkAction::ReplaceLink => {
                    push_op(a, LinkOp::RemoveFile(owned(hp.as_str())));
                    push_op(a, LinkOp::Symlink { src: owned(pd.as_str()), dst: owned(hp.as_str()) });
                    assert(acc_view(*a).ops =~= c.ops + rl.0);
                },
                SymlinkAction::BackUp(b) => {
                    push_op(a, LinkOp::Rename { from: owned(hp.as_str()), to: b });
                    push_op(a, LinkOp::Symlink { src: owned(pd.as_str()), dst: owned(hp.as_str()) });
                    assert(acc_view(*a).ops =~= c.ops + rl.0);
                },
                SymlinkAction::Refuse(e) => {
                    assert(c.ops =~= c.ops + rl.0);
                    assert(c.written =~= c.written + Seq::<Seq<char>>::empty());
                    assert(c.sources =~= c.sources + Seq::<Seq<char>>::empty());
                    return Some(e);
                },
            }
            assert(acc_view(*a).written == c.written);
            assert(acc_view(*a).sources == c.sources);
            let ghost w = acc_view(*a);
            a.written.push(hp);
            assert(acc_view(*a).written =~= w.written + seq![join_path(h@, ".p10k.zsh"@)]);
            assert(acc_view(*a).ops =~= w.ops + Seq::<LinkStep>::empty());
            assert(acc_view(*a).sources =~= w.sources + Seq::<Seq<char>>::empty());
        },
    }
    copy_tree(a, root, "shell/scripts", sd.as_str(), "scripts", &p.scripts);
    copy_tree(a, root, "shell/fastfetch", sd.as_str(), "fastfetch", &p.fastfetch);
    match resolve_shell_file(root, "shell/tips.txt", p.tips.overlay_is_file, p.tips.template_is_file) {
        Err(_) => {},
        Ok(k) => {
            copy_template(a, k, sd.as_str(), "tips.txt", "tips");
        },
    }
    let sc = join(sd.as_str(), "scripts");
    push_op(a, LinkOp::MakeExecutable(sc));
    assert(acc_view(*a) == zsh_phase(s, root@, cfg@, *p).0);
    None
}

fn final_steps(a: &mut Acc, root: &str, cfg: &str, shell: ShellKind, enable_product_rc: bool, p: &LinkProbes) -> (r: Result<Vec<String>, RigError>)
    ensures
        acc_view(*final(a)) == final_phase(acc_view(*old(a)), root@, cfg@, shell, enable_product_rc, *p).0,
        match r {
            Ok(t) => final_phase(acc_view(*old(a)), root@, cfg@, shell, enable_product_rc, *p).1 == Some((views(t@)[0], views(t@)[1]))
                && t@.len() == 2 && final_phase(acc_view(*old(a)), root@, cfg@, shell, enable_product_rc, *p).2 is None,
            Err(e) => final_phase(acc_view(*old(a)), root@, cfg@, shell, enable_product_rc, *p).2 == msg_text(e)
                && msg_text(e) is Some,
        },
{
    let ghost sb = acc_view(*a);
    let sd = join(cfg, "shell");
    if enable_product_rc {
        let m = join(sd.as_str(), "use-product-rc");
        push_op(a, LinkOp::WriteEmpty(owned(m.as_str())));
        let ghost w = acc_view(*a);
        a.written.push(m);
        a.sources.push(owned("product-rc=on"));
        assert(acc_view(*a).written =~= w.written + seq![join_path(sd@, "use-product-rc"@)]);
        assert(acc_view(*a).sources =~= w.sources + seq!["product-rc=on"@]);
        assert(acc_view(*a).ops =~= w.ops + Seq::<LinkStep>::empty());
    }
    let h = match &p.home {
        None => {
            return Err(RigError::Msg(owned("HOME is not set")));
        },
        Some(h) => h,
    };
    let t = shell_templates(shell);
    let profile_snip = managed_snippet(root, cfg, shell, false);
    let rc_snip = managed_snippet(root, cfg, shell, true);
    let pp = join(h.as_str(), t.profile_name);
    let rp = join(h.as_str(), t.rc_name);
    let ghost c0 = acc_view(*a);
    push_op(a, LinkOp::EnsureSnippet { path: owned(pp.as_str()), snippet: profile_snip });
    push_op(a, LinkOp::EnsureSnippet { path: owned(rp.as_str()), snippet: rc_snip });
    assert(acc_view(*a).ops =~= c0.ops + seq![
        LinkStep::EnsureSnippet(pp@, spec_managed_snippet(root@, cfg@, shell, false)),
        LinkStep::EnsureSnippet(rp@, spec_managed_snippet(root@, cfg@, shell, true)),
    ]);
    assert(acc_view(*a).written =~= c0.written + Seq::<Seq<char>>::empty());
    assert(acc_view(*a).sources =~= c0.sources + Seq::<Seq<char>>::empty());
    let mut touched: Vec<String> = Vec::new();
    touched.push(pp);
    touched.push(rp);
    Ok(touched)
}

/// The shell link for `shell` from the templates under `root` into the
/// config directory `cfg`, with the product rc turned on or not, given what
/// the caller found (see `LinkProbes`).
pub fn link_shell(root: &str, cfg: &str, shell: ShellKind, enable_product_rc: bool, p: &LinkProbes) -> (plan: LinkPlan)
    ensures
        op_views(plan.ops@) == spec_link_shell(root@, cfg@, shell, enable_product_rc, *p).0,
        outcome_is(plan.outcome, cfg@, spec_link_shell(root@, cfg@, shell, enable_product_rc, *p).1),
{
    let mut a = Acc { ops: Vec::new(), written: Vec::new(), sources: Vec::new() };
    assert(acc_view(a).ops.len() == 0 && acc_view(a).written.len() == 0 && acc_view(a).sources.len() == 0);
    if let Some(e) = base(&mut a, root, cfg, shell, p) {
        return LinkPlan { ops: a.ops, outcome: Err(e) };
    }
    let ghost sa = acc_view(a);
    if shell == ShellKind::Zsh {
        if let Some(e) = zsh_extras(&mut a, root, cfg, p) {
            return LinkPlan { ops: a.ops, outcome: Err(e) };
        }
    }
    let ghost sb = acc_view(a);
    assert(sb == (if shell == ShellKind::Zsh {
        zsh_phase(sa, root@, cfg@, *p)
    } else {
        (sa, None)
    }).0);
    match final_steps(&mut a, root, cfg, shell, enable_product_rc, p) {
        Err(e) => LinkPlan { ops: a.ops, outcome: Err(e) },
        Ok(touched) => {
            assert(views(touched@) =~= seq![views(touched@)[0], views(touched@)[1]]);
            let report = LinkReport { config_dir: owned(cfg), written: a.written, touched_rcs: touched, sources: a.sources };
            LinkPlan { ops: a.ops, outcome: Ok(report) }
        },
    }
}

// ---------------------------------------------------------------------------
// tmux
// ---------------------------------------------------------------------------

/// What the caller found before linking tmux.
pub struct TmuxProbes {
    /// The overlay and shipped `tmux.conf`.
    pub conf: TemplateProbe,
    /// The overlay and shipped status-script trees.
    pub scripts: TreeProbe,
    pub home: Option<String>,
    /// What stands at `~/.tmux.conf`.
    pub dst: LinkTargetProbe,
    pub secs: u64,
}

/// The `tmux.conf` used: the overlay copy when it is a file, else the
/// shipped one.
pub open spec fn tmux_conf_of(root: Seq<char>, p: TemplateProbe) -> Option<Seq<char>> {
    if p.overlay_is_file {
        Some(overlay_tmux_conf(root))
    } else if p.template_is_file {
        Some(template_tmux_conf(root))
    } else {
        None
    }
}

/// The status scripts installed: each file of the script tree copied into
/// `scripts_dir` and made executable.
pub open spec fn script_copies(from: Seq<char>, scripts_dir: Seq<char>, files: Seq<Seq<char>>) -> Seq<LinkStep>
    decreases files.len(),
{
    if files.len() == 0 {
        seq![]
    } else {
        let f = files.last();
        script_copies(from, scripts_dir, files.drop_last()) + seq![
            LinkStep::Copy(join_path(from, f), join_path(scripts_dir, f)),
            LinkStep::Chmod(join_path(scripts_dir, f)),
        ]
    }
}

/// The line for a linked `~/.tmux.conf`, by what stood there.
pub open spec fn spec_tmux_detail(root: Seq<char>, src: Seq<char>, dst: Seq<char>, l: LinkTargetProbe, secs: nat, n: nat) -> Seq<char> {
    if l.is_symlink && (l.target matches Some(cur) && same_path(cur@, src)) {
        "already linked → "@ + src
    } else if !l.is_symlink && l.is_file {
        "linked "@ + src + " (backed up previous → "@ + backup_path(dst, secs) + ")"@
    } else {
        (if path_has_prefix(src, join_path(root, "overlay"@)) {
            "overlay"@
        } else {
            "templates"@
        }) + " → "@ + dst + "  "@ + decimal(n) + " scripts"@
    }
}

/// The tmux link: the changes in order, and either the report (its line,
/// the linked path, the scripts installed) or the error text.
pub open spec fn spec_link_tmux(root: Seq<char>, scripts_dir: Seq<char>, p: TmuxProbes) -> (
    Seq<LinkStep>,
    Result<(Seq<char>, Seq<char>, Seq<Seq<char>>), Seq<char>>,
) {
    match (tmux_conf_of(root, p.conf), p.home) {
        (None, _) => (seq![], Err("missing tmux template (templates/tmux/tmux.conf or overlay/tmux.conf)"@)),
        (Some(_), None) => (seq![], Err("HOME is not set"@)),
        (Some(src), Some(h)) => {
            let dst = join_path(h@, ".tmux.conf"@);
            let files = views(p.scripts.files@);
            let has_tree = p.scripts.overlay_is_dir || p.scripts.template_is_dir;
            let from = if p.scripts.overlay_is_dir {
                join_path(root, "overlay/tmux/scripts"@)
            } else {
                join_path(join_path(root, "templates"@), "tmux/scripts"@)
            };
            let (tree_ops, extra) = if has_tree {
                (
                    seq![LinkStep::CreateDir(scripts_dir)] + script_copies(from, scripts_dir, files),
                    Seq::new(files.len(), |i: int| join_path(scripts_dir, files[i])),
                )
            } else {
                (seq![], seq![])
            };
            let (link_ops, err) = relink(src, dst, p.dst, p.secs as nat);
            match err {
                Some(m) => (tree_ops, Err(m)),
                None => (tree_ops + link_ops, Ok((spec_tmux_detail(root, src, dst, p.dst, p.secs as nat, extra.len()), dst, extra))),
            }
        },
    }
}

/// The tmux link from the templates under `root`, installing the status
/// scripts into `scripts_dir`, given what the caller found (see `TmuxProbes`).
pub fn link_tmux(root: &str, scripts_dir: &str, p: &TmuxProbes) -> (r: (Vec<LinkOp>, Result<TmuxReport, RigError>))
    ensures
        op_views(r.0@) == spec_link_tmux(root@, scripts_dir@, *p).0,
        match (r.1, spec_link_tmux(root@, scripts_dir@, *p).1) {
            (Ok(t), Ok((d, l, x))) => t.detail@ == d && (t.linked matches Some(y) && y@ == l) && views(t.extra@) == x,
            (Err(e), Err(m)) => msg_text(e) == Some(m),
            _ => false,
        },
{
    let mut ops: Vec<LinkOp> = Vec::new();
    let src = match resolve_src(root, p.conf.overlay_is_file, p.conf.template_is_file) {
        None => {
            assert(op_views(ops@) =~= Seq::<LinkStep>::empty());
            return (ops, Err(missing_tmux_template()));
        },
        Some(s) => s,
    };
    let h = match &p.home {
        None => {
            assert(op_views(ops@) =~= Seq::<LinkStep>::empty());
            return (ops, Err(RigError::Msg(owned("HOME is not set"))));
        },
        Some(h) => h,
    };
    let dst = tmux_conf_path(h.as_str());
    let mut extra: Vec<String> = Vec::new();
    let ghost files = views(p.scripts.files@);
    match tmux_scripts_source(root, p.scripts.overlay_is_dir, p.scripts.template_is_dir) {
        None => {
            assert(op_views(ops@) =~= Seq::<LinkStep>::empty());
            assert(views(extra@) =~= Seq::<Seq<char>>::empty());
        },
        Some(from) => {
            ops.push(LinkOp::CreateDir(owned(scripts_dir)));
            let mut i: usize = 0;
            while i < p.scripts.files.len()
                invariant
                    i <= p.scripts.files.len(),
                    files == views(p.scripts.files@),
                    op_views(ops@) == seq![LinkStep::CreateDir(scripts_dir@)] + script_copies(
                        from@,
                        scripts_dir@,
                        files.subrange(0, i as int),
                    ),
                    views(extra@) == Seq::new(i as nat, |k: int| join_path(scripts_dir@, files[k])),
                decreases p.scripts.files.len() - i,
            {
                let ghost o = op_views(ops@);
                let ghost e = views(extra@);
                let name = p.scripts.files[i].as_str();
                assert(files[i as int] == name@);
                let x = join(from.as_str(), name);
                let y = join(scripts_dir, name);
                let ghost xv = x@;
                let ghost yv = y@;
                ops.push(LinkOp::Copy { from: x, to: owned(y.as_str()) });
                ops.push(LinkOp::Chmod(owned(y.as_str())));
                extra.push(y);
                assert(op_views(ops@) =~= o + seq![LinkStep::Copy(xv, yv), LinkStep::Chmod(yv)]);
                assert(views(extra@) =~= e.push(yv));
                assert(files.subrange(0, i + 1).drop_last() =~= files.subrange(0, i as int));
                assert(files.subrange(0, i + 1).last() == files[i as int]);
                assert(op_views(ops@) =~= seq![LinkStep::CreateDir(scripts_dir@)] + script_copies(
                    from@,
                    scripts_dir@,
                    files.subrange(0, i + 1),
                ));
                assert(views(extra@) =~= Seq::new((i + 1) as nat, |k: int| join_path(scripts_dir@, files[k])));
                i = i + 1;
            }
            assert(files.subrange(0, files.len() as int) =~= files);
        },
    }
    let ghost tree_ops = op_views(ops@);
    let l = &p.dst;
    let tgt = match &l.target {
        Some(x) => Some(x.as_str()),
        None => None,
    };
    let action = symlink_action(src.as_str(), dst.as_str(), l.is_symlink, tgt, l.is_file, l.exists, p.secs);
    let ghost rl = relink(src@, dst@, p.dst, p.secs as nat);
    match &action {
        SymlinkAction::Keep => {
            assert(op_views(ops@) =~= tree_ops + rl.0);
        },
        SymlinkAction::Create => {
            ops.push(LinkOp::Symlink { src: owned(src.as_str()), dst: owned(dst.as_str()) });
            assert(op_views(ops@) =~= tree_ops + rl.0);
        },
        SymlinkAction::ReplaceLink => {
            ops.push(LinkOp::RemoveFile(owned(dst.as_str())));
            ops.push(LinkOp::Symlink { src: owned(src.as_str()), dst: owned(dst.as_str()) });
            assert(op_views(ops@) =~= tree_ops + rl.0);
        },
        SymlinkAction::BackUp(b) => {
            ops.push(LinkOp::Rename { from: owned(dst.as_str()), to: owned(b.as_str()) });
            ops.push(LinkOp::Symlink { src: owned(src.as_str()), dst: owned(dst.as_str()) });
            assert(op_views(ops@) =~= tree_ops + rl.0);
        },
        SymlinkAction::Refuse(_) => {},
    }
    let ghost xv = views(extra@);
    assert(xv.len() == extra@.len());
    let rep = tmux_report(root, src.as_str(), dst.as_str(), action, extra);
    (ops, rep)
}

// ---------------------------------------------------------------------------
// Cursor
// ---------------------------------------------------------------------------

/// What the caller found for one Cursor settings file: which of its overlay,
/// shipped and `.example` copies are files, and what stands at its place.
pub struct CursorFileProbe {
    pub overlay_is_file: bool,
    pub live_is_file: bool,
    pub example_is_file: bool,
    pub dst: LinkTargetProbe,
}

/// What the caller found before installing the Cursor settings.
pub struct CursorProbes {
    pub home: Option<String>,
    pub settings: CursorFileProbe,
    pub keybindings: CursorFileProbe,
    pub secs: u64,
}

/// A settings file's source and whether it is the overlay's.
pub open spec fn cursor_src(root: Seq<char>, name: Seq<char>, fp: CursorFileProbe) -> Option<(Seq<char>, bool)> {
    let (o, l, e) = cursor_candidates_spec(root, name);
    if fp.overlay_is_file {
        Some((o, true))
    } else if fp.live_is_file {
        Some((l, false))
    } else if fp.example_is_file {
        Some((e, false))
    } else {
        None
    }
}

/// Putting `src` at `dst`: an overlay source is symlinked (kept when the
/// link points there), a shipped one copied (kept when a plain file is
/// there); an old file is backed up first, an old symlink removed; anything
/// else at `dst` is refused.
pub open spec fn install_steps(src: Seq<char>, dst: Seq<char>, link: bool, d: LinkTargetProbe, secs: nat) -> (
    Seq<LinkStep>,
    CursorOutcome,
    Option<Seq<char>>,
) {
    let bak = backup_path(dst, secs);
    let refuse = "refusing to replace non-file Cursor path: "@ + dst;
    let done = |backed_up: bool| CursorOutcome::Installed { from_overlay: link, backed_up, linked: link };
    if link {
        if d.is_symlink {
            if d.target matches Some(t) && same_path(t@, src) {
                (seq![], CursorOutcome::Already { from_overlay: true }, None)
            } else {
                (seq![LinkStep::RemoveFile(dst), LinkStep::Symlink(src, dst)], done(false), None)
            }
        } else if d.is_file {
            (seq![LinkStep::Rename(dst, bak), LinkStep::Symlink(src, dst)], done(true), None)
        } else if d.exists {
            (seq![], CursorOutcome::Missing, Some(refuse))
        } else {
            (seq![LinkStep::Symlink(src, dst)], done(false), None)
        }
    } else {
        if d.is_file && !d.is_symlink {
            (seq![], CursorOutcome::Already { from_overlay: false }, None)
        } else if d.is_symlink || d.is_file {
            (seq![LinkStep::Rename(dst, bak), LinkStep::Copy(src, dst)], done(true), None)
        } else if d.exists {
            (seq![], CursorOutcome::Missing, Some(refuse))
        } else {
            (seq![LinkStep::Copy(src, dst)], done(false), None)
        }
    }
}

/// One settings file: nothing when it has no source, else its install.
pub open spec fn cursor_file(root: Seq<char>, dd: Seq<char>, name: Seq<char>, fp: CursorFileProbe, secs: nat) -> (
    Seq<LinkStep>,
    CursorOutcome,
    Option<Seq<char>>,
) {
    match cursor_src(root, name, fp) {
        None => (seq![], CursorOutcome::Missing, None),
        Some((src, ov)) => install_steps(src, join_path(dd, name), ov, fp.dst, secs),
    }
}

/// The installed path of a file that was installed.
pub open spec fn installed_path(o: CursorOutcome, dst: Seq<char>) -> Seq<Seq<char>> {
    if o is Installed {
        seq![dst]
    } else {
        seq![]
    }
}

/// The Cursor step's line: that there is nothing to install, or where the
/// files came from and into which directory, then a note per file.
pub open spec fn cursor_detail(dd: Seq<char>, os: Seq<CursorOutcome>) -> Seq<char> {
    if forall|i: int| 0 <= i < os.len() ==> #[trigger] os[i] is Missing {
        "no cursor templates — add *.example under templates/cursor/User or overlay/cursor/User"@
    } else {
        join_text(seq![src_kind(os) + " → "@ + dd] + notes_upto(cursor_files(), os, os.len() as int), "; "@)
    }
}

/// The Cursor step: the changes in order, and either its line and the
/// installed paths, or the error text.
pub open spec fn spec_apply_cursor(root: Seq<char>, os: OsKind, p: CursorProbes) -> (
    Seq<LinkStep>,
    Result<(Seq<char>, Seq<Seq<char>>), Seq<char>>,
) {
    match p.home {
        None => (seq![], Err("HOME is not set"@)),
        Some(h) => {
            let dd = spec_cursor_user_dir(h@, os);
            let (o1, c1, e1) = cursor_file(root, dd, "settings.json"@, p.settings, p.secs as nat);
            let (o2, c2, e2) = cursor_file(root, dd, "keybindings.json"@, p.keybindings, p.secs as nat);
            match (e1, e2) {
                (Some(m), _) => (seq![LinkStep::CreateDir(dd)] + o1, Err(m)),
                (None, Some(m)) => (seq![LinkStep::CreateDir(dd)] + o1 + o2, Err(m)),
                (None, None) => (
                    seq![LinkStep::CreateDir(dd)] + o1 + o2,
                    Ok((
                        cursor_detail(dd, seq![c1, c2]),
                        installed_path(c1, join_path(dd, "settings.json"@)) + installed_path(
                            c2,
                            join_path(dd, "keybindings.json"@),
                        ),
                    )),
                ),
            }
        },
    }
}

fn install_file(ops: &mut Vec<LinkOp>, root: &str, dd: &str, name: &str, fp: &CursorFileProbe, secs: u64) -> (r: Result<
    CursorOutcome,
    RigError,
>)
    ensures
        ({
            let (o, c, e) = cursor_file(root@, dd@, name@, *fp, secs as nat);
            op_views(final(ops)@) == op_views(old(ops)@) + o && match r {
                Ok(x) => e is None && x == c,
                Err(x) => e is Some && msg_text(x) == e,
            }
        }),
{
    let ghost before = op_views(ops@);
    let (src, ov) = match cursor_resolve_src(root, name, fp.overlay_is_file, fp.live_is_file, fp.example_is_file) {
        None => {
            assert(op_views(ops@) =~= before + Seq::<LinkStep>::empty());
            return Ok(CursorOutcome::Missing);
        },
        Some(x) => x,
    };
    let dst = join(dd, name);
    let d = &fp.dst;
    let tgt = match &d.target {
        Some(x) => Some(x.as_str()),
        None => None,
    };
    let ghost st = install_steps(src@, dst@, ov, fp.dst, secs as nat);
    match install_action(src.as_str(), dst.as_str(), ov, d.is_symlink, tgt, d.is_file, d.exists, secs) {
        InstallAction::Already => {
            assert(op_views(ops@) =~= before + st.0);
            Ok(CursorOutcome::Already { from_overlay: ov })
        },
        InstallAction::Refuse(e) => {
            assert(op_views(ops@) =~= before + st.0);
            Err(e)
        },
        InstallAction::Install { remove_link, backup, link } => {
            if remove_link {
                ops.push(LinkOp::RemoveFile(owned(dst.as_str())));
            }
            let backed_up = backup.is_some();
            match backup {
                Some(b) => {
                    ops.push(LinkOp::Rename { from: owned(dst.as_str()), to: b });
                },
                None => {},
            }
            if link {
                ops.push(LinkOp::Symlink { src: owned(src.as_str()), dst: owned(dst.as_str()) });
            } else {
                ops.push(LinkOp::Copy { from: owned(src.as_str()), to: owned(dst.as_str()) });
            }
            assert(op_views(ops@) =~= before + st.0);
            Ok(CursorOutcome::Installed { from_overlay: ov, backed_up, linked: link })
        },
    }
}

/// The Cursor step for `os` from the templates under `root`, given what the
/// caller found (see `CursorProbes`): the changes, then the step's report
/// and the installed paths, or the error.
pub fn apply_cursor(root: &str, os: OsKind, p: &CursorProbes) -> (r: (Vec<LinkOp>, Result<(StepReport, Vec<String>), RigError>))
    ensures
        op_views(r.0@) == spec_apply_cursor(root@, os, *p).0,
        match (r.1, spec_apply_cursor(root@, os, *p).1) {
            (Ok((rep, linked)), Ok((d, l))) => rep.ok && rep.detail@ == d && views(linked@) == l,
            (Err(e), Err(m)) => msg_text(e) == Some(m),
            _ => false,
        },
{
    let mut ops: Vec<LinkOp> = Vec::new();
    let h = match &p.home {
        None => {
            assert(op_views(ops@) =~= Seq::<LinkStep>::empty());
            return (ops, Err(RigError::Msg(owned("HOME is not set"))));
        },
        Some(h) => h,
    };
    let dd = cursor_user_dir(h.as_str(), os);
    ops.push(LinkOp::CreateDir(owned(dd.as_str())));
    let ghost o0 = op_views(ops@);
    let c1 = match install_file(&mut ops, root, dd.as_str(), "settings.json", &p.settings, p.secs) {
        Err(e) => {
            return (ops, Err(e));
        },
        Ok(c) => c,
    };
    let ghost o1 = op_views(ops@);
    let c2 = match install_file(&mut ops, root, dd.as_str(), "keybindings.json", &p.keybindings, p.secs) {
        Err(e) => {
            return (ops, Err(e));
        },
        Ok(c) => c,
    };
    let mut linked: Vec<String> = Vec::new();
    if matches!(c1, CursorOutcome::Installed { .. }) {
        linked.push(join(dd.as_str(), "settings.json"));
    }
    let ghost l1 = views(linked@);
    if matches!(c2, CursorOutcome::Installed { .. }) {
        linked.push(join(dd.as_str(), "keybindings.json"));
    }
    assert(views(linked@) =~= installed_path(c1, join_path(dd@, "settings.json"@)) + installed_path(
        c2,
        join_path(dd@, "keybindings.json"@),
    ));
    let names = ["settings.json", "keybindings.json"];
    let outcomes = [c1, c2];
    proof {
        reveal_strlit("settings.json");
        reveal_strlit("keybindings.json");
        assert(names@.map_values(|s: &str| s@) =~= cursor_files());
        assert(outcomes@ =~= seq![c1, c2]);
    }
    let rep = cursor_report(dd.as_str(), &names, &outcomes);
    (ops, Ok((rep, linked)))
}

} // verus!
