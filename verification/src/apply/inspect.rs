//! Live probes of enabled features: which to run and how their output is read.
use vstd::prelude::*;
use crate::text::append_lines;
use crate::ui::{kv_line, item2_line};
use crate::apply::features::{
    key_of, pmset_custom_sources, spec_pmset_sources, val_of, LOGIND_DROPIN_PATH,
    SSHD_KEEPALIVE_PATH,
};
use crate::paths::{join as join_path_exec, join_path};
use crate::schema::OsKind;
use crate::ui::{item2, note, section, spec_field_line, spec_tidy, spec_wrap, Style, CYAN, DIM, YELLOW};
use crate::text::{
    chars_of, concat2, concat3, copy_range, join, join_strings, lines, lines_of, owned, push_str,
    starts_with, starts_with_chars, string_of, trim, trim_chars, views, words, words_of,
};

verus! {

/// Which live probes to run — only enabled role/host features.
#[derive(Clone, Copy, Default, Debug, PartialEq, Eq, Structural)]
pub struct LiveWanted {
    pub stay_awake: bool,
    pub remote_login: bool,
    pub screen_sharing: bool,
    pub thunderbolt: bool,
    pub tailscale: bool,
    pub cursor: bool,
}

impl LiveWanted {
    /// Whether any probe is wanted.
    pub fn any(self) -> (b: bool)
        ensures
            b == (self.stay_awake || self.remote_login || self.screen_sharing || self.thunderbolt
                || self.tailscale || self.cursor),
    {
        self.stay_awake || self.remote_login || self.screen_sharing || self.thunderbolt
            || self.tailscale || self.cursor
    }
}

/// The last value seen of each of sleep, displaysleep, disksleep and powernap
/// (`-` when never seen), over lines `ls`.
pub open spec fn keys_fold(ls: Seq<Seq<char>>) -> (Seq<char>, Seq<char>, Seq<char>, Seq<char>)
    decreases ls.len(),
{
    if ls.len() == 0 {
        ("-"@, "-"@, "-"@, "-"@)
    } else {
        let (s, d, k, n) = keys_fold(ls.drop_last());
        let key = key_of(ls.last());
        let v = val_of(ls.last());
        if key == "sleep"@ {
            (v, d, k, n)
        } else if key == "displaysleep"@ {
            (s, v, k, n)
        } else if key == "disksleep"@ {
            (s, d, v, n)
        } else if key == "powernap"@ {
            (s, d, k, v)
        } else {
            (s, d, k, n)
        }
    }
}

pub open spec fn spec_pmset_keys(text: Seq<char>) -> Seq<char> {
    let (s, d, k, n) = keys_fold(lines(text));
    "sleep "@ + s + "  display "@ + d + "  disk "@ + k + "  nap "@ + n
}

fn key_val(line: &Vec<char>) -> (r: (Vec<char>, Vec<char>))
    ensures
        r.0@ == key_of(line@),
        r.1@ == val_of(line@),
{
    let t = trim_chars(line.as_slice());
    let w = words_of(t.as_slice());
    proof {
        assert(w@.map_values(|l: Vec<char>| l@).len() == w@.len());
    }
    let key = if w.len() > 0 {
        assert(w@.map_values(|l: Vec<char>| l@)[0] == w@[0]@);
        w[0].clone()
    } else {
        Vec::new()
    };
    let val = if w.len() > 1 {
        assert(w@.map_values(|l: Vec<char>| l@)[1] == w@[1]@);
        w[1].clone()
    } else {
        Vec::new()
    };
    (key, val)
}

fn is_text(v: &Vec<char>, s: &str) -> (b: bool)
    ensures
        b == (v@ == s@),
{
    let w = chars_of(s);
    crate::text::chars_eq(v.as_slice(), w.as_slice())
}

/// `sleep S  display D  disk K  nap N` from `pmset -g` style output.
pub fn pmset_keys(text: &str) -> (out: String)
    ensures
        out@ == spec_pmset_keys(text@),
{
    let v = chars_of(text);
    let ls = lines_of(v.as_slice());
    let ghost lv = ls@.map_values(|l: Vec<char>| l@);
    let mut sleep = chars_of("-");
    let mut display = chars_of("-");
    let mut disk = chars_of("-");
    let mut nap = chars_of("-");
    let mut i: usize = 0;
    while i < ls.len()
        invariant
            i <= ls.len(),
            lv == ls@.map_values(|l: Vec<char>| l@),
            keys_fold(lv.subrange(0, i as int)) == (sleep@, display@, disk@, nap@),
        decreases ls.len() - i,
    {
        assert(lv.subrange(0, i + 1).drop_last() =~= lv.subrange(0, i as int));
        assert(lv.subrange(0, i + 1).last() == ls@[i as int]@);
        let (key, val) = key_val(&ls[i]);
        if is_text(&key, "sleep") {
            sleep = val;
        } else if is_text(&key, "displaysleep") {
            display = val;
        } else if is_text(&key, "disksleep") {
            disk = val;
        } else if is_text(&key, "powernap") {
            nap = val;
        }
        i = i + 1;
    }
    assert(lv.subrange(0, ls.len() as int) =~= lv);
    let mut out = owned("sleep ");
    push_str(&mut out, string_of(sleep.as_slice()).as_str());
    push_str(&mut out, "  display ");
    push_str(&mut out, string_of(display.as_slice()).as_str());
    push_str(&mut out, "  disk ");
    push_str(&mut out, string_of(disk.as_slice()).as_str());
    push_str(&mut out, "  nap ");
    push_str(&mut out, string_of(nap.as_slice()).as_str());
    out
}

/// The trimmed rest of the first trimmed line at or after `i` that starts with `prefix`.
pub open spec fn field_from(ls: Seq<Seq<char>>, prefix: Seq<char>, i: int) -> Option<Seq<char>>
    decreases ls.len() - i,
{
    if i < 0 || i >= ls.len() {
        None
    } else if starts_with(trim(ls[i]), prefix) {
        Some(trim(trim(ls[i]).subrange(prefix.len() as int, trim(ls[i]).len() as int)))
    } else {
        field_from(ls, prefix, i + 1)
    }
}

/// The value after `prefix` on the first line that starts with it (e.g. `status:`).
pub fn ifconfig_field(text: &str, prefix: &str) -> (r: Option<String>)
    ensures
        match r {
            Some(f) => field_from(lines(text@), prefix@, 0) == Some(f@),
            None => field_from(lines(text@), prefix@, 0) is None,
        },
{
    let v = chars_of(text);
    let p = chars_of(prefix);
    let ls = lines_of(v.as_slice());
    let ghost lv = ls@.map_values(|l: Vec<char>| l@);
    let mut i: usize = 0;
    while i < ls.len()
        invariant
            i <= ls.len(),
            p@ == prefix@,
            lv == ls@.map_values(|l: Vec<char>| l@),
            lv == lines(text@),
            field_from(lv, prefix@, i as int) == field_from(lv, prefix@, 0),
        decreases ls.len() - i,
    {
        assert(lv[i as int] == ls@[i as int]@);
        let t = trim_chars(ls[i].as_slice());
        if starts_with_chars(t.as_slice(), p.as_slice()) {
            let rest = copy_range(t.as_slice(), p.len(), t.len());
            let f = trim_chars(rest.as_slice());
            return Some(string_of(f.as_slice()));
        }
        i = i + 1;
    }
    None
}

/// The second word of the first trimmed line at or after `i` that starts with `inet `.
pub open spec fn inet_from(ls: Seq<Seq<char>>, i: int) -> Option<Seq<char>>
    decreases ls.len() - i,
{
    if i < 0 || i >= ls.len() {
        None
    } else if starts_with(trim(ls[i]), "inet "@) {
        if words(trim(ls[i])).len() > 1 {
            Some(words(trim(ls[i]))[1])
        } else {
            None
        }
    } else {
        inet_from(ls, i + 1)
    }
}

/// The address on the first `inet ` line of `ifconfig` output.
pub fn ifconfig_inet(text: &str) -> (r: Option<String>)
    ensures
        match r {
            Some(a) => inet_from(lines(text@), 0) == Some(a@),
            None => inet_from(lines(text@), 0) is None,
        },
{
    let v = chars_of(text);
    let p = chars_of("inet ");
    let ls = lines_of(v.as_slice());
    let ghost lv = ls@.map_values(|l: Vec<char>| l@);
    let mut i: usize = 0;
    while i < ls.len()
        invariant
            i <= ls.len(),
            p@ == "inet "@,
            lv == ls@.map_values(|l: Vec<char>| l@),
            lv == lines(text@),
            inet_from(lv, i as int) == inet_from(lv, 0),
        decreases ls.len() - i,
    {
        assert(lv[i as int] == ls@[i as int]@);
        let t = trim_chars(ls[i].as_slice());
        if starts_with_chars(t.as_slice(), p.as_slice()) {
            let w = words_of(t.as_slice());
            assert(w@.map_values(|l: Vec<char>| l@).len() == w@.len());
            if w.len() > 1 {
                assert(w@.map_values(|l: Vec<char>| l@)[1] == w@[1]@);
                return Some(string_of(w[1].as_slice()));
            }
            return None;
        }
        i = i + 1;
    }
    None
}

/// The trimmed lines that are neither blank nor comments, in order.
pub open spec fn setting_lines(ls: Seq<Seq<char>>) -> Seq<Seq<char>>
    decreases ls.len(),
{
    if ls.len() == 0 {
        seq![]
    } else {
        let rest = setting_lines(ls.drop_last());
        let t = trim(ls.last());
        if t.len() == 0 || starts_with(t, "#"@) {
            rest
        } else {
            rest.push(t)
        }
    }
}

/// The settings of a drop-in file: its trimmed lines without blanks and comments.
pub fn setting_lines_of(text: &str) -> (out: Vec<String>)
    ensures
        views(out@) == setting_lines(lines(text@)),
{
    let v = chars_of(text);
    let hash = chars_of("#");
    let ls = lines_of(v.as_slice());
    let ghost lv = ls@.map_values(|l: Vec<char>| l@);
    let mut out: Vec<String> = Vec::new();
    let mut i: usize = 0;
    while i < ls.len()
        invariant
            i <= ls.len(),
            hash@ == "#"@,
            lv == ls@.map_values(|l: Vec<char>| l@),
            views(out@) == setting_lines(lv.subrange(0, i as int)),
        decreases ls.len() - i,
    {
        assert(lv.subrange(0, i + 1).drop_last() =~= lv.subrange(0, i as int));
        assert(lv.subrange(0, i + 1).last() == ls@[i as int]@);
        let t = trim_chars(ls[i].as_slice());
        if !(t.len() == 0 || starts_with_chars(t.as_slice(), hash.as_slice())) {
            let ghost before = views(out@);
            out.push(string_of(t.as_slice()));
            assert(views(out@) =~= before.push(t@));
        }
        i = i + 1;
    }
    assert(lv.subrange(0, ls.len() as int) =~= lv);
    out
}

/// The keepalive line of the status: the settings joined by spaces, or the
/// file's path when it holds none.
pub fn keepalive_summary(text: &str, path: &str) -> (out: String)
    ensures
        out@ == (if setting_lines(lines(text@)).len() == 0 {
            path@
        } else {
            join(setting_lines(lines(text@)), " "@)
        }),
{
    let keys = setting_lines_of(text);
    assert(views(keys@).len() == keys@.len());
    if keys.len() == 0 {
        owned(path)
    } else {
        join_strings(keys.as_slice(), " ")
    }
}

// ---------------------------------------------------------------------------
// The live lines of the status
// ---------------------------------------------------------------------------

/// A command's output as the probes use it: only when it succeeded and
/// printed more than blanks.
pub fn cmd_output(ok: bool, stdout: &str) -> (r: Option<String>)
    ensures
        (ok && trim(stdout@).len() > 0) ==> (r matches Some(o) && o@ == stdout@),
        !(ok && trim(stdout@).len() > 0) ==> r is None,
{
    let t = trim_chars(chars_of(stdout).as_slice());
    if ok && t.len() > 0 {
        Some(owned(stdout))
    } else {
        None
    }
}

/// What the live probes found (each only looked at when its feature is wanted).
pub struct LiveProbes {
    /// `pmset -g` and `pmset -g custom` output.
    pub pmset: Option<String>,
    pub pmset_custom: Option<String>,
    pub has_systemd: bool,
    /// The logind drop-in's text, when it could be read.
    pub logind: Option<String>,
    pub sshd_listening: bool,
    /// The sshd keepalive drop-in's text, when it could be read.
    pub keepalive: Option<String>,
    pub vnc_listening: bool,
    pub remote_management: bool,
    /// `ifconfig bridge0` output.
    pub bridge: Option<String>,
    pub tb_plist_present: bool,
    pub tailscale_cli: bool,
    pub tailscale_app: bool,
    /// `tailscale ip -4` output.
    pub tailscale_ip: Option<String>,
    /// Cursor's user directory (none without a home directory).
    pub cursor_dir: Option<String>,
    pub cursor_settings_present: bool,
}

/// Which probes the live section needs: each only for a wanted feature and,
/// where the feature reads it on one OS alone, only on that OS. No probe uses
/// sudo.
#[derive(Clone, Copy, Debug, PartialEq, Eq, Structural)]
pub struct LiveNeeds {
    /// `pmset -g` and `pmset -g custom`.
    pub pmset: bool,
    /// Whether `/run/systemd/system` is a directory.
    pub systemd: bool,
    /// The logind drop-in.
    pub logind: bool,
    /// Whether sshd runs or port 22 answers, and the keepalive drop-in.
    pub sshd: bool,
    /// Port 5900 and the Remote Management agent.
    pub vnc: bool,
    /// `ifconfig bridge0`.
    pub bridge: bool,
    /// The Thunderbolt LaunchDaemon plist.
    pub tb_plist: bool,
    /// The Tailscale CLI, app and address.
    pub tailscale: bool,
    /// Cursor's user directory and its settings file.
    pub cursor: bool,
}

pub open spec fn spec_live_needs(os: OsKind, w: LiveWanted) -> LiveNeeds {
    LiveNeeds {
        pmset: w.stay_awake && os == OsKind::Macos,
        systemd: w.stay_awake && os == OsKind::Linux,
        logind: w.stay_awake && os == OsKind::Linux,
        sshd: w.remote_login,
        vnc: w.screen_sharing && os == OsKind::Macos,
        bridge: w.thunderbolt,
        tb_plist: w.thunderbolt && os == OsKind::Macos,
        tailscale: w.tailscale,
        cursor: w.cursor,
    }
}

/// The probes to run on `os` for the wanted features; none when nothing is
/// wanted.
pub fn live_needs(os: OsKind, w: LiveWanted) -> (n: LiveNeeds)
    ensures
        n == spec_live_needs(os, w),
{
    let mac = match os {
        OsKind::Macos => true,
        OsKind::Linux => false,
    };
    LiveNeeds {
        pmset: w.stay_awake && mac,
        systemd: w.stay_awake && !mac,
        logind: w.stay_awake && !mac,
        sshd: w.remote_login,
        vnc: w.screen_sharing && mac,
        bridge: w.thunderbolt,
        tb_plist: w.thunderbolt && mac,
        tailscale: w.tailscale,
        cursor: w.cursor,
    }
}

/// Nothing wanted, nothing probed.
pub proof fn law_no_probe_unwanted(os: OsKind, w: LiveWanted)
    requires
        !(w.stay_awake || w.remote_login || w.screen_sharing || w.thunderbolt || w.tailscale || w.cursor),
    ensures
        ({
            let n = spec_live_needs(os, w);
            !n.pmset && !n.systemd && !n.logind && !n.sshd && !n.vnc && !n.bridge && !n.tb_plist
                && !n.tailscale && !n.cursor
        }),
{
}

pub open spec fn opt_str(o: Option<String>) -> Option<Seq<char>> {
    match o {
        Some(s) => Some(s@),
        None => None,
    }
}

pub open spec fn yes_no(b: bool) -> Seq<char> {
    if b {
        "yes"@
    } else {
        "no"@
    }
}

/// The stay-awake lines: pmset's settings in use and per power source
/// (macOS); the logind drop-in's settings (Linux).
#[verifier::opaque]
pub open spec fn spec_live_awake(os: OsKind, p: LiveProbes, st: Style) -> Seq<Seq<char>> {
    match os {
        OsKind::Macos => seq![kv_line(st, "awake"@, match opt_str(p.pmset) {
            Some(s) => "in-use  "@ + spec_pmset_keys(s),
            None => "in-use  (pmset failed)"@,
        })] + match opt_str(p.pmset_custom) {
            Some(c) => spec_pmset_sources(c).map_values(|nb: (Seq<char>, Seq<char>)| kv_line(st, nb.0, spec_pmset_keys(nb.1))),
            None => seq![],
        },
        OsKind::Linux => if !p.has_systemd {
            seq![kv_line(st, "awake"@, "no systemd — skip"@)]
        } else {
            match opt_str(p.logind) {
                Some(s) => if trim(s).len() > 0 {
                    seq![kv_line(st, "awake"@, LOGIND_DROPIN_PATH@)] + setting_lines(lines(s)).map_values(
                        |t: Seq<char>| item2_line(st, t),
                    )
                } else {
                    seq![kv_line(st, "awake"@, LOGIND_DROPIN_PATH@ + "  missing"@)]
                },
                None => seq![kv_line(st, "awake"@, LOGIND_DROPIN_PATH@ + "  missing"@)],
            }
        },
    }
}

pub fn live_awake(os: OsKind, p: &LiveProbes, st: &Style) -> (r: Vec<String>)
    ensures
        views(r@) == spec_live_awake(os, *p, *st),
{
    proof {
        reveal(spec_live_awake);
    }
    let mut r: Vec<String> = Vec::new();
    match os {
        OsKind::Macos => {
            let v = match &p.pmset {
                Some(s) => {
                    let k = pmset_keys(s.as_str());
                    concat2("in-use  ", k.as_str())
                },
                None => owned("in-use  (pmset failed)"),
            };
            r.push(note("awake", v.as_str(), st));
            let ghost head = views(r@);
            match &p.pmset_custom {
                Some(c) => {
                    let srcs = pmset_custom_sources(c.as_str());
                    let ghost sv = srcs@.map_values(|e: (String, String)| (e.0@, e.1@));
                    let mut i: usize = 0;
                    while i < srcs.len()
                        invariant
                            i <= srcs.len(),
                            sv == srcs@.map_values(|e: (String, String)| (e.0@, e.1@)),
                            views(r@) == head + sv.subrange(0, i as int).map_values(
                                |nb: (Seq<char>, Seq<char>)| kv_line(*st, nb.0, spec_pmset_keys(nb.1)),
                            ),
                        decreases srcs.len() - i,
                    {
                        let ghost before = views(r@);
                        let k = pmset_keys(srcs[i].1.as_str());
                        r.push(note(srcs[i].0.as_str(), k.as_str(), st));
                        assert(sv.subrange(0, i + 1) =~= sv.subrange(0, i as int).push(sv[i as int]));
                        assert(views(r@) =~= before.push(kv_line(*st, sv[i as int].0, spec_pmset_keys(sv[i as int].1))));
                        i = i + 1;
                    }
                    assert(sv.subrange(0, srcs.len() as int) =~= sv);
                    assert(sv == spec_pmset_sources(c@));
                },
                None => {
                    assert(views(r@) =~= head + Seq::<Seq<char>>::empty());
                },
            }
            r
        },
        OsKind::Linux => {
            if !p.has_systemd {
                r.push(note("awake", "no systemd — skip", st));
                assert(views(r@) =~= seq![kv_line(*st, "awake"@, "no systemd — skip"@)]);
                return r;
            }
            let text = match &p.logind {
                Some(s) => {
                    let t = trim_chars(chars_of(s.as_str()).as_slice());
                    if t.len() > 0 {
                        Some(s)
                    } else {
                        None
                    }
                },
                None => None,
            };
            match text {
                Some(s) => {
                    r.push(note("awake", LOGIND_DROPIN_PATH, st));
                    let ghost head = views(r@);
                    let keys = setting_lines_of(s.as_str());
                    let mut i: usize = 0;
                    while i < keys.len()
                        invariant
                            i <= keys.len(),
                            views(r@) == head + views(keys@).subrange(0, i as int).map_values(|t: Seq<char>| item2_line(*st, t)),
                        decreases keys.len() - i,
                    {
                        let ghost before = views(r@);
                        r.push(item2(keys[i].as_str(), st));
                        assert(views(keys@).subrange(0, i + 1) =~= views(keys@).subrange(0, i as int).push(keys@[i as int]@));
                        assert(views(r@) =~= before.push(item2_line(*st, keys@[i as int]@)));
                        i = i + 1;
                    }
                    assert(views(keys@).subrange(0, keys.len() as int) =~= views(keys@));
                    r
                },
                None => {
                    let v = concat2(LOGIND_DROPIN_PATH, "  missing");
                    r.push(note("awake", v.as_str(), st));
                    assert(views(r@) =~= seq![kv_line(*st, "awake"@, LOGIND_DROPIN_PATH@ + "  missing"@)]);
                    r
                },
            }
        },
    }
}

/// The remote-login lines: whether sshd runs, then the keepalive drop-in.
#[verifier::opaque]
pub open spec fn spec_live_remote(os: OsKind, p: LiveProbes, st: Style) -> Seq<Seq<char>> {
    let label = match os {
        OsKind::Macos => "sshd process"@,
        OsKind::Linux => "sshd listening"@,
    };
    seq![
        kv_line(st, "remote"@, label + "  "@ + yes_no(p.sshd_listening)),
        kv_line(st, "keepalive"@, match opt_str(p.keepalive) {
            Some(s) => if setting_lines(lines(s)).len() == 0 {
                SSHD_KEEPALIVE_PATH@
            } else {
                join(setting_lines(lines(s)), " "@)
            },
            None => "missing"@,
        }),
    ]
}

pub fn live_remote(os: OsKind, p: &LiveProbes, st: &Style) -> (r: Vec<String>)
    ensures
        views(r@) == spec_live_remote(os, *p, *st),
{
    proof {
        reveal(spec_live_remote);
    }
    let label = match os {
        OsKind::Macos => "sshd process",
        OsKind::Linux => "sshd listening",
    };
    let v = concat3(label, "  ", if p.sshd_listening { "yes" } else { "no" });
    let k = match &p.keepalive {
        Some(s) => keepalive_summary(s.as_str(), SSHD_KEEPALIVE_PATH),
        None => owned("missing"),
    };
    let mut r: Vec<String> = Vec::new();
    r.push(note("remote", v.as_str(), st));
    r.push(note("keepalive", k.as_str(), st));
    assert(views(r@) =~= spec_live_remote(os, *p, *st));
    r
}

/// The Screen Sharing line.
#[verifier::opaque]
pub open spec fn spec_live_screen(os: OsKind, p: LiveProbes, st: Style) -> Seq<Seq<char>> {
    match os {
        OsKind::Macos => seq![kv_line(st, "screen"@, "vnc :5900  "@ + yes_no(p.vnc_listening) + (if p.remote_management {
            "  Remote Management on"@
        } else {
            seq![]
        }))],
        OsKind::Linux => seq![kv_line(st, "screen"@, "macOS only"@)],
    }
}

pub fn live_screen(os: OsKind, p: &LiveProbes, st: &Style) -> (r: Vec<String>)
    ensures
        views(r@) == spec_live_screen(os, *p, *st),
{
    proof {
        reveal(spec_live_screen);
    }
    let mut r: Vec<String> = Vec::new();
    match os {
        OsKind::Macos => {
            let mut m = concat2("vnc :5900  ", if p.vnc_listening { "yes" } else { "no" });
            let ghost m0 = m@;
            if p.remote_management {
                push_str(&mut m, "  Remote Management on");
            } else {
                assert(m@ =~= m0 + Seq::<char>::empty());
            }
            r.push(note("screen", m.as_str(), st));
        },
        OsKind::Linux => {
            r.push(note("screen", "macOS only", st));
        },
    }
    assert(views(r@) =~= spec_live_screen(os, *p, *st));
    r
}

/// The Thunderbolt lines: the bridge's status and address, and (macOS)
/// whether its LaunchDaemon is there.
#[verifier::opaque]
pub open spec fn spec_live_tb(os: OsKind, p: LiveProbes, st: Style) -> Seq<Seq<char>> {
    seq![kv_line(st, "tb"@, match opt_str(p.bridge) {
        Some(t) => "bridge0  "@ + (match field_from(lines(t), "status:"@, 0) {
            Some(v) => v,
            None => "-"@,
        }) + "  inet "@ + (match inet_from(lines(t), 0) {
            Some(v) => v,
            None => "-"@,
        }),
        None => "bridge0  absent"@,
    })] + if os == OsKind::Macos {
        seq![kv_line(st, "plist"@, if p.tb_plist_present {
            "present"@
        } else {
            "missing"@
        })]
    } else {
        seq![]
    }
}

pub fn live_tb(os: OsKind, p: &LiveProbes, st: &Style) -> (r: Vec<String>)
    ensures
        views(r@) == spec_live_tb(os, *p, *st),
{
    proof {
        reveal(spec_live_tb);
    }
    let v = match &p.bridge {
        Some(t) => {
            let status = match ifconfig_field(t.as_str(), "status:") {
                Some(x) => x,
                None => owned("-"),
            };
            let inet = match ifconfig_inet(t.as_str()) {
                Some(x) => x,
                None => owned("-"),
            };
            let mut m = concat2("bridge0  ", status.as_str());
            push_str(&mut m, "  inet ");
            push_str(&mut m, inet.as_str());
            m
        },
        None => owned("bridge0  absent"),
    };
    let mut r: Vec<String> = Vec::new();
    r.push(note("tb", v.as_str(), st));
    let ghost head = views(r@);
    match os {
        OsKind::Macos => {
            r.push(note("plist", if p.tb_plist_present { "present" } else { "missing" }, st));
        },
        OsKind::Linux => {},
    }
    assert(views(r@) =~= spec_live_tb(os, *p, *st));
    r
}

/// The Tailscale line.
#[verifier::opaque]
pub open spec fn spec_live_tailscale(p: LiveProbes, st: Style) -> Seq<Seq<char>> {
    seq![kv_line(st, "tailscale"@, if !p.tailscale_cli {
        if p.tailscale_app {
            "Tailscale.app (CLI missing)"@
        } else {
            "not installed"@
        }
    } else {
        match opt_str(p.tailscale_ip) {
            Some(ip) => "ip  "@ + trim(ip),
            None => "ip  not connected"@,
        }
    })]
}

pub fn live_tailscale(p: &LiveProbes, st: &Style) -> (r: Vec<String>)
    ensures
        views(r@) == spec_live_tailscale(*p, *st),
{
    proof {
        reveal(spec_live_tailscale);
    }
    let v = if !p.tailscale_cli {
        if p.tailscale_app {
            owned("Tailscale.app (CLI missing)")
        } else {
            owned("not installed")
        }
    } else {
        match &p.tailscale_ip {
            Some(ip) => {
                let t = string_of(trim_chars(chars_of(ip.as_str()).as_slice()).as_slice());
                concat2("ip  ", t.as_str())
            },
            None => owned("ip  not connected"),
        }
    };
    let mut r: Vec<String> = Vec::new();
    r.push(note("tailscale", v.as_str(), st));
    assert(views(r@) =~= spec_live_tailscale(*p, *st));
    r
}

/// The Cursor line.
#[verifier::opaque]
pub open spec fn spec_live_cursor(p: LiveProbes, st: Style) -> Seq<Seq<char>> {
    seq![kv_line(st, "cursor"@, match opt_str(p.cursor_dir) {
        None => "HOME unset"@,
        Some(d) => if p.cursor_settings_present {
            join_path(d, "settings.json"@)
        } else {
            "settings.json missing"@
        },
    })]
}

pub fn live_cursor(p: &LiveProbes, st: &Style) -> (r: Vec<String>)
    ensures
        views(r@) == spec_live_cursor(*p, *st),
{
    proof {
        reveal(spec_live_cursor);
    }
    let v = match &p.cursor_dir {
        None => owned("HOME unset"),
        Some(d) => {
            if p.cursor_settings_present {
                join_path_exec(d.as_str(), "settings.json")
            } else {
                owned("settings.json missing")
            }
        },
    };
    let mut r: Vec<String> = Vec::new();
    r.push(note("cursor", v.as_str(), st));
    assert(views(r@) =~= spec_live_cursor(*p, *st));
    r
}

/// `s` when `on`, else nothing.
pub open spec fn when_on(on: bool, s: Seq<Seq<char>>) -> Seq<Seq<char>> {
    if on {
        s
    } else {
        seq![]
    }
}

/// The lines of the wanted sleep, remote-login and screen-sharing probes.
pub open spec fn spec_live_first(os: OsKind, w: LiveWanted, p: LiveProbes, st: Style) -> Seq<Seq<char>> {
    when_on(w.stay_awake, spec_live_awake(os, p, st)) + when_on(w.remote_login, spec_live_remote(os, p, st))
        + when_on(w.screen_sharing, spec_live_screen(os, p, st))
}

/// The lines of the wanted Thunderbolt, Tailscale and Cursor probes.
pub open spec fn spec_live_second(os: OsKind, w: LiveWanted, p: LiveProbes, st: Style) -> Seq<Seq<char>> {
    when_on(w.thunderbolt, spec_live_tb(os, p, st)) + when_on(w.tailscale, spec_live_tailscale(p, st))
        + when_on(w.cursor, spec_live_cursor(p, st))
}

/// The live section of the status: a heading, then the lines of each wanted
/// probe in order (nothing when none is wanted).
pub open spec fn spec_print_live(os: OsKind, w: LiveWanted, p: LiveProbes, st: Style) -> Seq<Seq<char>> {
    if !(w.stay_awake || w.remote_login || w.screen_sharing || w.thunderbolt || w.tailscale || w.cursor) {
        seq![]
    } else {
        seq!["  "@ + spec_wrap(st.color, DIM@, "live"@)] + spec_live_first(os, w, p, st) + spec_live_second(
            os,
            w,
            p,
            st,
        )
    }
}

fn append_when(r: &mut Vec<String>, on: bool, more: Vec<String>)
    ensures
        views(final(r)@) == views(old(r)@) + when_on(on, views(more@)),
{
    if on {
        append_lines(r, more);
    } else {
        assert(views(r@) =~= views(r@) + Seq::<Seq<char>>::empty());
    }
}

fn live_first(os: OsKind, w: LiveWanted, p: &LiveProbes, st: &Style) -> (r: Vec<String>)
    ensures
        views(r@) == spec_live_first(os, w, *p, *st),
{
    let mut r: Vec<String> = Vec::new();
    let ghost e = views(r@);
    let a = if w.stay_awake { live_awake(os, p, st) } else { Vec::new() };
    append_when(&mut r, w.stay_awake, a);
    let b = if w.remote_login { live_remote(os, p, st) } else { Vec::new() };
    append_when(&mut r, w.remote_login, b);
    let c = if w.screen_sharing { live_screen(os, p, st) } else { Vec::new() };
    append_when(&mut r, w.screen_sharing, c);
    assert(e =~= Seq::<Seq<char>>::empty());
    assert(views(r@) =~= spec_live_first(os, w, *p, *st));
    r
}

fn live_second(os: OsKind, w: LiveWanted, p: &LiveProbes, st: &Style) -> (r: Vec<String>)
    ensures
        views(r@) == spec_live_second(os, w, *p, *st),
{
    let mut r: Vec<String> = Vec::new();
    let ghost e = views(r@);
    let a = if w.thunderbolt { live_tb(os, p, st) } else { Vec::new() };
    append_when(&mut r, w.thunderbolt, a);
    let b = if w.tailscale { live_tailscale(p, st) } else { Vec::new() };
    append_when(&mut r, w.tailscale, b);
    let c = if w.cursor { live_cursor(p, st) } else { Vec::new() };
    append_when(&mut r, w.cursor, c);
    assert(e =~= Seq::<Seq<char>>::empty());
    assert(views(r@) =~= spec_live_second(os, w, *p, *st));
    r
}

/// The live section of the status, from the probes' results.
pub fn print_live(os: OsKind, wanted: LiveWanted, probes: &LiveProbes, st: &Style) -> (r: Vec<String>)
    ensures
        views(r@) == spec_print_live(os, wanted, *probes, *st),
{
    let mut r: Vec<String> = Vec::new();
    if !wanted.any() {
        assert(views(r@) =~= Seq::<Seq<char>>::empty());
        return r;
    }
    r.push(section("live", st));
    append_lines(&mut r, live_first(os, wanted, probes, st));
    append_lines(&mut r, live_second(os, wanted, probes, st));
    r
}

} // verus!
