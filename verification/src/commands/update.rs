//! `rig update`: which release asset to install, where, and whether an
//! update is needed. The caller fetches the release and installs the file.
use vstd::prelude::*;
use crate::ui::{kv_line};
use crate::error::{msg_text, RigError};
use crate::paths::{join, join_path, paths_equal, same_path};
use crate::text::{chars_of, concat2, concat3, owned, push_str, str_eq, string_of, views};
use crate::ui::{
    empty, item, kv, next, preview, spec_field_line, spec_tidy, spec_wrap, title, Style, BOLD, CYAN, DIM,
    YELLOW,
};

verus! {

/// The repository releases come from unless `RIG_REPO` names another.
pub const DEFAULT_REPO: &'static str = "yamanori99/rig";

/// The release target of an OS and an architecture (`std::env::consts`).
pub open spec fn spec_detect_target(os: Seq<char>, arch: Seq<char>) -> Result<Seq<char>, Seq<char>> {
    let o = if os == "macos"@ {
        Some("apple-darwin"@)
    } else if os == "linux"@ {
        Some("unknown-linux-gnu"@)
    } else {
        None
    };
    let a = if arch == "x86_64"@ || arch == "aarch64"@ {
        Some(arch)
    } else {
        None
    };
    match (o, a) {
        (None, _) => Err("unsupported OS: "@ + os),
        (Some(_), None) => Err("unsupported arch: "@ + arch),
        (Some(ov), Some(av)) => Ok(av + "-"@ + ov),
    }
}

pub fn detect_target(os: &str, arch: &str) -> (r: Result<String, RigError>)
    ensures
        match (r, spec_detect_target(os@, arch@)) {
            (Ok(t), Ok(s)) => t@ == s,
            (Err(e), Err(m)) => msg_text(e) == Some(m),
            _ => false,
        },
{
    let o = if str_eq(os, "macos") {
        "apple-darwin"
    } else if str_eq(os, "linux") {
        "unknown-linux-gnu"
    } else {
        return Err(RigError::Msg(concat2("unsupported OS: ", os)));
    };
    if !str_eq(arch, "x86_64") && !str_eq(arch, "aarch64") {
        return Err(RigError::Msg(concat2("unsupported arch: ", arch)));
    }
    Ok(concat3(arch, "-", o))
}

/// Where the binary goes: `rig` in `RIG_BIN_DIR`, else in `~/.local/bin`.
pub open spec fn spec_install_path(bin_dir: Option<Seq<char>>, home: Option<Seq<char>>) -> Result<Seq<char>, Seq<char>> {
    match (bin_dir, home) {
        (Some(d), _) => Ok(join_path(d, "rig"@)),
        (None, Some(h)) => Ok(join_path(join_path(h, ".local/bin"@), "rig"@)),
        (None, None) => Err("HOME is not set"@),
    }
}

pub fn install_path(bin_dir: Option<&str>, home: Option<&str>) -> (r: Result<String, RigError>)
    ensures
        match (
            r,
            spec_install_path(
                match bin_dir {
                    Some(d) => Some(d@),
                    None => None,
                },
                match home {
                    Some(h) => Some(h@),
                    None => None,
                },
            ),
        ) {
            (Ok(p), Ok(s)) => p@ == s,
            (Err(e), Err(m)) => msg_text(e) == Some(m),
            _ => false,
        },
{
    match bin_dir {
        Some(d) => Ok(join(d, "rig")),
        None => match home {
            Some(h) => {
                let b = join(h, ".local/bin");
                Ok(join(b.as_str(), "rig"))
            },
            None => Err(RigError::Msg(owned("HOME is not set"))),
        },
    }
}

/// The API address of a release: the tagged one, or the latest.
pub fn release_url(repo: &str, tag: Option<&str>) -> (r: String)
    ensures
        r@ == "https://api.github.com/repos/"@ + repo@ + "/releases/"@ + match tag {
            Some(t) => "tags/"@ + t@,
            None => "latest"@,
        },
{
    let mut u = concat3("https://api.github.com/repos/", repo, "/releases/");
    match tag {
        Some(t) => {
            push_str(&mut u, "tags/");
            push_str(&mut u, t);
        },
        None => {
            push_str(&mut u, "latest");
        },
    }
    u
}

/// One asset of a release: its name and download address, when the
/// release's JSON gives them as strings.
pub struct ReleaseAsset {
    pub name: Option<String>,
    pub url: Option<String>,
}

/// What the logic reads of a release's JSON: its tag name (when a string)
/// and its assets (none when `assets` is not an array).
pub struct Release {
    pub tag_name: Option<String>,
    pub assets: Vec<ReleaseAsset>,
}

pub open spec fn opt_seq(o: Option<String>) -> Option<Seq<char>> {
    match o {
        Some(s) => Some(s@),
        None => None,
    }
}

/// The index of the first asset at or after `i` named `want` that has an
/// address (or the number of assets).
pub open spec fn first_asset(assets: Seq<ReleaseAsset>, want: Seq<char>, i: int) -> int
    decreases assets.len() - i,
{
    if i < 0 || i >= assets.len() {
        assets.len() as int
    } else if opt_seq(assets[i].name) == Some(want) && assets[i].url is Some {
        i
    } else {
        first_asset(assets, want, i + 1)
    }
}

/// The release's tag name, else the tag asked for.
pub open spec fn release_name(tag: Option<Seq<char>>, rel: Release) -> Option<Seq<char>> {
    match opt_seq(rel.tag_name) {
        Some(n) => Some(n),
        None => tag,
    }
}

/// The release's tag and the address of the asset for `target`: the tag
/// asked for gives way to the release's own tag name; the latest release
/// must have one; the asset is `rig-<target>.tar.gz`.
pub open spec fn spec_resolve_asset(repo: Seq<char>, tag: Option<Seq<char>>, target: Seq<char>, rel: Release) -> Result<
    (Seq<char>, Seq<char>),
    Seq<char>,
> {
    let want = "rig-"@ + target + ".tar.gz"@;
    match release_name(tag, rel) {
        None => Err("latest release has no tag_name"@),
        Some(n) => {
            let k = first_asset(rel.assets@, want, 0);
            if k < rel.assets@.len() {
                Ok((n, opt_seq(rel.assets@[k].url)->0))
            } else {
                Err("no asset "@ + want + " on "@ + n + " — see https://github.com/"@ + repo + "/releases"@)
            }
        },
    }
}

/// The tag and download address of the asset for `target` in `release`,
/// fetched from `repo` for `tag` (the latest release when none).
pub fn resolve_asset(repo: &str, tag: Option<&str>, target: &str, release: &Release) -> (r: Result<(String, String), RigError>)
    ensures
        match (
            r,
            spec_resolve_asset(
                repo@,
                match tag {
                    Some(t) => Some(t@),
                    None => None,
                },
                target@,
                *release,
            ),
        ) {
            (Ok((a, b)), Ok((x, y))) => a@ == x && b@ == y,
            (Err(e), Err(m)) => msg_text(e) == Some(m),
            _ => false,
        },
{
    let want = concat3("rig-", target, ".tar.gz");
    let name = match &release.tag_name {
        Some(n) => owned(n.as_str()),
        None => match tag {
            Some(t) => owned(t),
            None => {
                return Err(RigError::Msg(owned("latest release has no tag_name")));
            },
        },
    };
    let ghost tv = match tag {
        Some(t) => Some(t@),
        None => None::<Seq<char>>,
    };
    let ghost nm = name@;
    assert(release_name(tv, *release) == Some(nm));
    let mut i: usize = 0;
    while i < release.assets.len()
        invariant
            i <= release.assets.len(),
            name@ == nm,
            release_name(tv, *release) == Some(nm),
            tv == match tag {
                Some(t) => Some(t@),
                None => None::<Seq<char>>,
            },
            want@ == "rig-"@ + target@ + ".tar.gz"@,
            first_asset(release.assets@, want@, i as int) == first_asset(release.assets@, want@, 0),
        decreases release.assets.len() - i,
    {
        let a = &release.assets[i];
        match (&a.name, &a.url) {
            (Some(n), Some(u)) => {
                if str_eq(n.as_str(), want.as_str()) {
                    assert(release.assets@[i as int].url == Some(*u));
                    assert(release.assets@[i as int].name == Some(*n));
                    assert(first_asset(release.assets@, want@, i as int) == i as int);
                    assert(opt_seq(release.assets@[i as int].url)->0 == u@);
                    assert(first_asset(release.assets@, want@, 0) == i as int);
                    assert(spec_resolve_asset(repo@, tv, target@, *release) == Ok::<(Seq<char>, Seq<char>), Seq<char>>((nm, u@)));
                    return Ok((name, owned(u.as_str())));
                }
            },
            _ => {},
        }
        i = i + 1;
    }
    let mut m = concat3("no asset ", want.as_str(), " on ");
    push_str(&mut m, name.as_str());
    push_str(&mut m, " — see https://github.com/");
    push_str(&mut m, repo);
    push_str(&mut m, "/releases");
    Err(RigError::Msg(m))
}

/// The tag without its leading `v`s.
pub open spec fn strip_vs(t: Seq<char>) -> Seq<char>
    decreases t.len(),
{
    if t.len() > 0 && t[0] == 'v' {
        strip_vs(t.drop_first())
    } else {
        t
    }
}

/// An update is needed when forced or when the release's version differs.
pub fn update_needed(force: bool, tag_name: &str, current: &str) -> (b: bool)
    ensures
        b == (force || strip_vs(tag_name@) != current@),
{
    let v = chars_of(tag_name);
    let mut i: usize = 0;
    assert(v@.subrange(0, v@.len() as int) =~= v@);
    while i < v.len() && v[i] == 'v'
        invariant
            i <= v.len(),
            strip_vs(v@.subrange(i as int, v@.len() as int)) == strip_vs(v@),
        decreases v.len() - i,
    {
        assert(v@.subrange(i as int, v@.len() as int).drop_first() =~= v@.subrange(i + 1, v@.len() as int));
        i = i + 1;
    }
    let rest = crate::text::copy_range(v.as_slice(), i, v.len());
    let rs = string_of(rest.as_slice());
    force || !str_eq(rs.as_str(), current)
}

/// The head of `rig update`: title, the running version, the release and
/// target, the destination.
pub fn update_head(current: &str, running: &str, tag_name: &str, target: &str, dest: &str, yes: bool, st: &Style) -> (r: Vec<
    String,
>)
    ensures
        views(r@) == seq![
            spec_wrap(st.color, BOLD@ + CYAN@, "update"@) + (if !yes {
                "  "@ + spec_wrap(st.color, DIM@, "preview"@)
            } else {
                seq![]
            }),
            kv_line(*st, "current"@, current@ + "  ("@ + running@ + ")"@),
            kv_line(*st, "target"@, tag_name@ + "  ("@ + target@ + ")"@),
            kv_line(*st, "dest"@, dest@),
        ],
{
    let mut r: Vec<String> = Vec::new();
    r.push(title("update", !yes, st));
    let mut c = concat3(current, "  (", running);
    push_str(&mut c, ")");
    r.push(kv("current", c.as_str(), st));
    let mut t = concat3(tag_name, "  (", target);
    push_str(&mut t, ")");
    r.push(kv("target", t.as_str(), st));
    r.push(kv("dest", dest, st));
    proof {
        reveal_strlit("");
    }
    assert(views(r@) =~= seq![
        spec_wrap(st.color, BOLD@ + CYAN@, "update"@) + (if !yes {
            "  "@ + spec_wrap(st.color, DIM@, "preview"@)
        } else {
            seq![]
        }),
        kv_line(*st, "current"@, current@ + "  ("@ + running@ + ")"@),
        kv_line(*st, "target"@, tag_name@ + "  ("@ + target@ + ")"@),
        kv_line(*st, "dest"@, dest@),
    ]);
    r
}

/// What `rig update` says when the release is the running version.
pub fn up_to_date(st: &Style) -> (r: String)
    ensures
        r@ == spec_field_line(*st, DIM@, ""@, DIM@, ""@, DIM@, spec_tidy("already up to date"@, *st)),
{
    empty("already up to date", st)
}

/// The end of a preview: the download address and how to install.
pub fn update_preview(url: &str, st: &Style) -> (r: Vec<String>)
    ensures
        views(r@) == seq![
            kv_line(*st, "download"@, url@),
            seq![],
            spec_field_line(*st, DIM@, ""@, DIM@, ""@, DIM@, spec_tidy("pass --yes (-y) to "@ + "install"@, *st)),
        ],
{
    let mut r: Vec<String> = Vec::new();
    r.push(kv("download", url, st));
    let mut p = preview("install", st);
    let ghost a = views(r@);
    let ghost b = views(p@);
    r.append(&mut p);
    assert(views(r@) =~= a + b);
    assert(views(r@) =~= seq![
        kv_line(*st, "download"@, url@),
        seq![],
        spec_field_line(*st, DIM@, ""@, DIM@, ""@, DIM@, spec_tidy("pass --yes (-y) to "@ + "install"@, *st)),
    ]);
    r
}

/// The end of an install: where it went; where the running binary is when
/// that is elsewhere; what to run next.
pub fn update_done(dest: &str, running: &str, st: &Style) -> (r: Vec<String>)
    ensures
        views(r@) == seq![kv_line(*st, "installed"@, dest@)] + (if running@ != dest@ {
            seq![
                kv_line(*st, "running"@, running@),
                spec_field_line(
                    *st,
                    DIM@,
                    ""@,
                    DIM@,
                    ""@,
                    DIM@,
                    spec_tidy("new binary is "@ + dest@ + " — open a new shell if PATH differs"@, *st),
                ),
            ]
        } else {
            seq![]
        }) + seq![kv_line(*st, "next"@, "rig --version"@)],
{
    let mut r: Vec<String> = Vec::new();
    r.push(kv("installed", dest, st));
    if !str_eq(running, dest) {
        r.push(kv("running", running, st));
        let m = concat3("new binary is ", dest, " — open a new shell if PATH differs");
        r.push(item(m.as_str(), st));
    }
    r.push(next("rig --version", st));
    assert(views(r@) =~= seq![kv_line(*st, "installed"@, dest@)] + (if running@ != dest@ {
        seq![
            kv_line(*st, "running"@, running@),
            spec_field_line(
                *st,
                DIM@,
                ""@,
                DIM@,
                ""@,
                DIM@,
                spec_tidy("new binary is "@ + dest@ + " — open a new shell if PATH differs"@, *st),
            ),
        ]
    } else {
        seq![]
    }) + seq![kv_line(*st, "next"@, "rig --version"@)]);
    r
}

/// The binary in an unpacked release: `rig` at the top, else `rig` in the
/// first listed entry that has one, else an error (given which of those
/// candidates are files).
pub fn find_rig_bin(tmp: &str, direct_is_file: bool, entries: &Vec<(String, bool)>) -> (r: Result<String, RigError>)
    ensures
        direct_is_file ==> (r matches Ok(p) && p@ == join_path(tmp@, "rig"@)),
        !direct_is_file && (exists|i: int| 0 <= i < entries@.len() && #[trigger] entries@[i].1) ==> (r matches Ok(p)
            && exists|i: int|
            0 <= i < entries@.len() && entries@[i].1 && p@ == join_path(entries@[i].0@, "rig"@) && forall|k: int|
                0 <= k < i ==> !#[trigger] entries@[k].1),
        !direct_is_file && !(exists|i: int| 0 <= i < entries@.len() && #[trigger] entries@[i].1) ==> (r matches Err(e)
            && msg_text(e) == Some("tarball has no rig binary"@)),
{
    if direct_is_file {
        return Ok(join(tmp, "rig"));
    }
    let mut i: usize = 0;
    while i < entries.len()
        invariant
            i <= entries.len(),
            !direct_is_file,
            forall|k: int| 0 <= k < i ==> !#[trigger] entries@[k].1,
        decreases entries.len() - i,
    {
        if entries[i].1 {
            return Ok(join(entries[i].0.as_str(), "rig"));
        }
        i = i + 1;
    }
    Err(RigError::Msg(owned("tarball has no rig binary")))
}

} // verus!
