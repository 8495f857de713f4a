//! Role features: reading `pmset` output, checking addresses, and the files and
//! messages that the feature steps write.
use vstd::prelude::*;
use crate::error::RigError;
use crate::text::{
    chars_of, concat2, concat3, contains_chars, contains_text, ends_with, ends_with_chars, lines,
    lines_of, lower_ascii, lower_ascii_chars, owned, push_str, split_char, split_chars, str_eq,
    string_of, trim, trim_chars, trim_str, words, words_of,
};

verus! {

/// The outcome of one feature step.
pub struct StepReport {
    pub ok: bool,
    pub detail: String,
}

pub const SSHD_KEEPALIVE_PATH: &'static str = "/etc/ssh/sshd_config.d/99-rig-keepalive.conf";

pub const LOGIND_DROPIN_PATH: &'static str = "/etc/systemd/logind.conf.d/99-rig-stay-awake.conf";

pub const LOGIND_DESIRED: &'static str = "# managed by rig — compute stay-awake\n[Login]\nIdleAction=ignore\nHandleLidSwitch=ignore\nHandleLidSwitchExternalPower=ignore\nHandleLidSwitchDocked=ignore\n";

pub const SSHD_KEEPALIVE_DESIRED: &'static str = "# managed by rig — client keepalive companion\nClientAliveInterval 30\nClientAliveCountMax 6\n";

pub const TB_PLIST_LABEL: &'static str = "dev.rig.thunderbolt-bridge";

// ---------------------------------------------------------------------------
// pmset -g custom
// ---------------------------------------------------------------------------

/// A power source header (`Battery Power:`, `AC Power:`, `UPS Power:`) and its name.
pub open spec fn pmset_header(t: Seq<char>) -> Option<Seq<char>> {
    if ends_with(t, ":"@) {
        let a = t.drop_last();
        if ends_with(a, " Power"@) {
            let h = a.subrange(0, a.len() - " Power"@.len());
            if h == "Battery"@ || h == "AC"@ || h == "UPS"@ {
                Some(h)
            } else {
                None
            }
        } else {
            None
        }
    } else {
        None
    }
}

/// The sources read from lines `ls`: finished `(name, body)` pairs, and the
/// name and body of the source still open.
pub open spec fn pmset_fold(ls: Seq<Seq<char>>) -> (Seq<(Seq<char>, Seq<char>)>, Seq<char>, Seq<char>)
    decreases ls.len(),
{
    if ls.len() == 0 {
        (seq![], seq![], seq![])
    } else {
        let (out, name, body) = pmset_fold(ls.drop_last());
        let line = ls.last();
        match pmset_header(trim(line)) {
            Some(h) => (if name.len() > 0 {
                out.push((name, body))
            } else {
                out
            }, h, seq![]),
            None => if name.len() > 0 {
                (out, name, body + line + seq!['\n'])
            } else {
                (out, name, body)
            },
        }
    }
}

/// The power sources of `pmset -g custom` output: each named source with the
/// lines under its header.
pub open spec fn spec_pmset_sources(custom: Seq<char>) -> Seq<(Seq<char>, Seq<char>)> {
    let (out, name, body) = pmset_fold(lines(custom));
    if name.len() > 0 {
        out.push((name, body))
    } else {
        out
    }
}

fn pmset_header_exec(t: &Vec<char>) -> (r: Option<Vec<char>>)
    ensures
        match r {
            Some(h) => pmset_header(t@) == Some(h@),
            None => pmset_header(t@) is None,
        },
{
    let colon = chars_of(":");
    proof {
        reveal_strlit(":");
    }
    if !ends_with_chars(t.as_slice(), colon.as_slice()) {
        return None;
    }
    let a = crate::text::copy_range(t.as_slice(), 0, t.len() - 1);
    assert(a@ =~= t@.drop_last());
    let power = chars_of(" Power");
    if !ends_with_chars(a.as_slice(), power.as_slice()) {
        return None;
    }
    let h = crate::text::copy_range(a.as_slice(), 0, a.len() - power.len());
    let bat = chars_of("Battery");
    let ac = chars_of("AC");
    let ups = chars_of("UPS");
    if crate::text::chars_eq(h.as_slice(), bat.as_slice()) || crate::text::chars_eq(h.as_slice(), ac.as_slice())
        || crate::text::chars_eq(h.as_slice(), ups.as_slice()) {
        Some(h)
    } else {
        None
    }
}

/// Splits `pmset -g custom` output into its power sources.
pub fn pmset_custom_sources(custom: &str) -> (out: Vec<(String, String)>)
    ensures
        out@.map_values(|p: (String, String)| (p.0@, p.1@)) == spec_pmset_sources(custom@),
{
    let v = chars_of(custom);
    let ls = lines_of(v.as_slice());
    let ghost lv = ls@.map_values(|l: Vec<char>| l@);
    let mut out: Vec<(String, String)> = Vec::new();
    let mut name: Vec<char> = Vec::new();
    let mut body: Vec<char> = Vec::new();
    let mut i: usize = 0;
    while i < ls.len()
        invariant
            i <= ls.len(),
            lv == ls@.map_values(|l: Vec<char>| l@),
            pmset_fold(lv.subrange(0, i as int)) == (
                out@.map_values(|p: (String, String)| (p.0@, p.1@)),
                name@,
                body@,
            ),
        decreases ls.len() - i,
    {
        let ghost pre = lv.subrange(0, i as int);
        assert(lv.subrange(0, i + 1).drop_last() =~= pre);
        assert(lv.subrange(0, i + 1).last() == ls@[i as int]@);
        let t = trim_chars(ls[i].as_slice());
        let ghost before = out@.map_values(|p: (String, String)| (p.0@, p.1@));
        match pmset_header_exec(&t) {
            Some(h) => {
                if name.len() > 0 {
                    out.push((string_of(name.as_slice()), string_of(body.as_slice())));
                    assert(out@.map_values(|p: (String, String)| (p.0@, p.1@)) =~= before.push(
                        (name@, body@),
                    ));
                }
                name = h;
                body = Vec::new();
            },
            None => {
                if name.len() > 0 {
                    let ghost b0 = body@;
                    let line = &ls[i];
                    let mut j: usize = 0;
                    while j < line.len()
                        invariant
                            j <= line.len(),
                            body@ == b0 + line@.subrange(0, j as int),
                        decreases line.len() - j,
                    {
                        body.push(line[j]);
                        j = j + 1;
                        assert(body@ =~= b0 + line@.subrange(0, j as int));
                    }
                    body.push('\n');
                    assert(line@.subrange(0, line.len() as int) =~= line@);
                    assert(body@ =~= b0 + line@ + seq!['\n']);
                }
            },
        }
        i = i + 1;
    }
    assert(lv.subrange(0, ls.len() as int) =~= lv);
    if name.len() > 0 {
        let ghost before = out@.map_values(|p: (String, String)| (p.0@, p.1@));
        out.push((string_of(name.as_slice()), string_of(body.as_slice())));
        assert(out@.map_values(|p: (String, String)| (p.0@, p.1@)) =~= before.push((name@, body@)));
    }
    out
}

/// The first and second words of a trimmed line (empty when missing).
pub open spec fn key_of(l: Seq<char>) -> Seq<char> {
    let w = words(trim(l));
    if w.len() > 0 {
        w[0]
    } else {
        seq![]
    }
}

pub open spec fn val_of(l: Seq<char>) -> Seq<char> {
    let w = words(trim(l));
    if w.len() > 1 {
        w[1]
    } else {
        seq![]
    }
}

/// Whether each of sleep, displaysleep, disksleep and powernap was last seen
/// as `0` (`None` when never seen), over lines `ls`.
pub open spec fn stanza_fold(ls: Seq<Seq<char>>) -> (Option<bool>, Option<bool>, Option<bool>, Option<bool>)
    decreases ls.len(),
{
    if ls.len() == 0 {
        (None, None, None, None)
    } else {
        let (s, d, k, n) = stanza_fold(ls.drop_last());
        let key = key_of(ls.last());
        let zero = val_of(ls.last()) == "0"@;
        if key == "sleep"@ {
            (Some(zero), d, k, n)
        } else if key == "displaysleep"@ {
            (s, Some(zero), k, n)
        } else if key == "disksleep"@ {
            (s, d, Some(zero), n)
        } else if key == "powernap"@ {
            (s, d, k, Some(zero))
        } else {
            (s, d, k, n)
        }
    }
}

/// A source is awake when sleep, display and disk sleep are `0`, and powernap
/// too when it is listed.
pub open spec fn spec_stanza_awake(body: Seq<char>) -> bool {
    let (s, d, k, n) = stanza_fold(lines(body));
    s == Some(true) && d == Some(true) && k == Some(true) && (n is None || n == Some(true))
}

fn key_val(line: &Vec<char>) -> (r: (Vec<char>, Vec<char>))
    ensures
        r.0@ == key_of(line@),
        r.1@ == val_of(line@),
{
    let t = trim_chars(line.as_slice());
    let w = words_of(t.as_slice());
    proof {
        assert(w@.map_values(|l: Vec<char>| l@).len() == w@.len());
    }
    let key = if w.len() > 0 {
        assert(w@.map_values(|l: Vec<char>| l@)[0] == w@[0]@);
        w[0].clone()
    } else {
        Vec::new()
    };
    let val = if w.len() > 1 {
        assert(w@.map_values(|l: Vec<char>| l@)[1] == w@[1]@);
        w[1].clone()
    } else {
        Vec::new()
    };
    (key, val)
}

fn is_text(v: &Vec<char>, s: &str) -> (b: bool)
    ensures
        b == (v@ == s@),
{
    let w = chars_of(s);
    crate::text::chars_eq(v.as_slice(), w.as_slice())
}

/// Whether one power source keeps the machine awake.
pub fn pmset_stanza_awake(body: &str) -> (b: bool)
    ensures
        b == spec_stanza_awake(body@),
{
    let v = chars_of(body);
    let ls = lines_of(v.as_slice());
    let ghost lv = ls@.map_values(|l: Vec<char>| l@);
    let mut sleep: Option<bool> = None;
    let mut display: Option<bool> = None;
    let mut disk: Option<bool> = None;
    let mut nap: Option<bool> = None;
    let mut i: usize = 0;
    while i < ls.len()
        invariant
            i <= ls.len(),
            lv == ls@.map_values(|l: Vec<char>| l@),
            stanza_fold(lv.subrange(0, i as int)) == (sleep, display, disk, nap),
        decreases ls.len() - i,
    {
        assert(lv.subrange(0, i + 1).drop_last() =~= lv.subrange(0, i as int));
        assert(lv.subrange(0, i + 1).last() == ls@[i as int]@);
        let (key, val) = key_val(&ls[i]);
        let zero = is_text(&val, "0");
        if is_text(&key, "sleep") {
            sleep = Some(zero);
        } else if is_text(&key, "displaysleep") {
            display = Some(zero);
        } else if is_text(&key, "disksleep") {
            disk = Some(zero);
        } else if is_text(&key, "powernap") {
            nap = Some(zero);
        }
        i = i + 1;
    }
    assert(lv.subrange(0, ls.len() as int) =~= lv);
    sleep == Some(true) && display == Some(true) && disk == Some(true) && (nap.is_none() || nap == Some(true))
}

/// True when every source in `pmset -g custom` has sleep/display/disk off
/// (powernap too, when that key exists), and there is at least one source.
pub open spec fn spec_all_awake(custom: Seq<char>) -> bool {
    let s = spec_pmset_sources(custom);
    s.len() > 0 && forall|i: int| 0 <= i < s.len() ==> spec_stanza_awake(#[trigger] s[i].1)
}

pub fn pmset_custom_all_awake(custom: &str) -> (b: bool)
    ensures
        b == spec_all_awake(custom@),
{
    let sources = pmset_custom_sources(custom);
    let ghost sv = sources@.map_values(|p: (String, String)| (p.0@, p.1@));
    if sources.len() == 0 {
        return false;
    }
    let mut i: usize = 0;
    while i < sources.len()
        invariant
            i <= sources.len(),
            sv == sources@.map_values(|p: (String, String)| (p.0@, p.1@)),
            sv == spec_pmset_sources(custom@),
            forall|k: int| 0 <= k < i ==> spec_stanza_awake(#[trigger] sv[k].1),
        decreases sources.len() - i,
    {
        assert(sv[i as int].1 == sources@[i as int].1@);
        if !pmset_stanza_awake(sources[i].1.as_str()) {
            return false;
        }
        i = i + 1;
    }
    true
}

// ---------------------------------------------------------------------------
// Thunderbolt address
// ---------------------------------------------------------------------------

pub open spec fn digit_value(c: char) -> nat {
    (c as u32 - '0' as u32) as nat
}

/// Value of a run of decimal digits.
pub open spec fn digits_value(s: Seq<char>) -> nat
    decreases s.len(),
{
    if s.len() == 0 {
        0
    } else {
        digits_value(s.drop_last()) * 10 + digit_value(s.last())
    }
}

/// The text after an optional leading `+`.
pub open spec fn unsigned_digits(s: Seq<char>) -> Seq<char> {
    if s.len() > 0 && s[0] == '+' {
        s.drop_first()
    } else {
        s
    }
}

/// What `str::parse::<u8>` accepts: an optional `+`, then one or more decimal
/// digits whose value is at most 255.
pub open spec fn parses_u8(s: Seq<char>) -> bool {
    let d = unsigned_digits(s);
    d.len() > 0 && (forall|i: int| 0 <= i < d.len() ==> crate::text::is_ascii_digit(#[trigger] d[i]))
        && digits_value(d) <= 255
}

/// `s.parse::<u8>().is_ok()`.
pub fn parses_as_u8(s: &Vec<char>) -> (b: bool)
    ensures
        b == parses_u8(s@),
{
    let start: usize = if s.len() > 0 && s[0] == '+' {
        1
    } else {
        0
    };
    let ghost d = unsigned_digits(s@);
    assert(d =~= s@.subrange(start as int, s.len() as int));
    if start >= s.len() {
        return false;
    }
    let mut value: u32 = 0;
    let mut i = start;
    while i < s.len()
        invariant
            start <= i <= s.len(),
            d == s@.subrange(start as int, s.len() as int),
            d == unsigned_digits(s@),
            forall|k: int| start <= k < i ==> crate::text::is_ascii_digit(#[trigger] s@[k]),
            value == digits_value(s@.subrange(start as int, i as int)),
            value <= 255,
        decreases s.len() - i,
    {
        let c = s[i];
        if !('0' <= c && c <= '9') {
            assert(d[i - start] == c);
            assert(!crate::text::is_ascii_digit(d[i - start]));
            return false;
        }
        let dv = (c as u32) - ('0' as u32);
        assert(dv == digit_value(c));
        assert(s@.subrange(start as int, i + 1).drop_last() =~= s@.subrange(start as int, i as int));
        assert(s@.subrange(start as int, i + 1).last() == c);
        let next = value * 10 + dv;
        assert(next == digits_value(s@.subrange(start as int, i + 1)));
        if next > 255 {
            proof {
                lemma_digits_value_grows(d, (i + 1 - start) as int);
                assert(d.subrange(0, (i + 1 - start) as int) =~= s@.subrange(start as int, i + 1));
            }
            return false;
        }
        value = next;
        i = i + 1;
    }
    assert(s@.subrange(start as int, s.len() as int) =~= d);
    true
}

/// A longer run of digits is worth at least as much as its prefix.
pub proof fn lemma_digits_value_grows(s: Seq<char>, k: int)
    requires
        0 <= k <= s.len(),
    ensures
        digits_value(s.subrange(0, k)) <= digits_value(s),
    decreases s.len() - k,
{
    if k < s.len() {
        lemma_digits_value_grows(s, k + 1);
        assert(s.subrange(0, k + 1).drop_last() =~= s.subrange(0, k));
        assert(digits_value(s.subrange(0, k + 1)) == digits_value(s.subrange(0, k)) * 10 + digit_value(s.subrange(0, k + 1).last()));
    } else {
        assert(s.subrange(0, k) =~= s);
    }
}

/// Four dot-separated parts, each a `u8`.
pub open spec fn is_ipv4(ip: Seq<char>) -> bool {
    let parts = split_char(ip, '.');
    parts.len() == 4 && forall|i: int| 0 <= i < 4 ==> parses_u8(#[trigger] parts[i])
}

/// Checks the Thunderbolt address: four dot-separated parts, each a number up to 255.
pub fn validate_ipv4(ip: &str) -> (r: Result<(), RigError>)
    ensures
        match r {
            Ok(()) => is_ipv4(ip@),
            Err(e) => !is_ipv4(ip@) && e is Msg && e->Msg_0@ == "thunderbolt IP must be IPv4: "@ + ip@,
        },
{
    let v = chars_of(ip);
    let parts = split_chars(v.as_slice(), '.');
    let ghost pv = parts@.map_values(|l: Vec<char>| l@);
    assert(pv.len() == parts@.len());
    if parts.len() != 4 {
        return Err(RigError::Msg(concat2("thunderbolt IP must be IPv4: ", ip)));
    }
    let mut i: usize = 0;
    while i < 4
        invariant
            i <= 4,
            parts@.len() == 4,
            pv == parts@.map_values(|l: Vec<char>| l@),
            pv == split_char(ip@, '.'),
            forall|k: int| 0 <= k < i ==> parses_u8(#[trigger] pv[k]),
        decreases 4 - i,
    {
        assert(pv[i as int] == parts@[i as int]@);
        if !parses_as_u8(&parts[i]) {
            return Err(RigError::Msg(concat2("thunderbolt IP must be IPv4: ", ip)));
        }
        i = i + 1;
    }
    Ok(())
}

/// The LaunchDaemon that re-applies the Thunderbolt bridge address.
pub open spec fn spec_thunderbolt_plist(ip: Seq<char>) -> Seq<char> {
    "<?xml version=\"1.0\" encoding=\"UTF-8\"?>\n<!DOCTYPE plist PUBLIC \"-//Apple//DTD PLIST 1.0//EN\" \"http://www.apple.com/DTDs/PropertyList-1.0.dtd\">\n<plist version=\"1.0\">\n<dict>\n    <key>Label</key>\n    <string>"@
        + TB_PLIST_LABEL@
        + "</string>\n    <key>ProgramArguments</key>\n    <array>\n        <string>/sbin/ifconfig</string>\n        <string>bridge0</string>\n        <string>inet</string>\n        <string>"@
        + ip
        + "</string>\n        <string>netmask</string>\n        <string>255.255.255.0</string>\n        <string>up</string>\n    </array>\n    <key>RunAtLoad</key>\n    <true/>\n    <key>StartInterval</key>\n    <integer>60</integer>\n</dict>\n</plist>\n"@
}

pub fn thunderbolt_plist(ip: &str) -> (out: String)
    ensures
        out@ == spec_thunderbolt_plist(ip@),
{
    let mut out = concat3(
        "<?xml version=\"1.0\" encoding=\"UTF-8\"?>\n<!DOCTYPE plist PUBLIC \"-//Apple//DTD PLIST 1.0//EN\" \"http://www.apple.com/DTDs/PropertyList-1.0.dtd\">\n<plist version=\"1.0\">\n<dict>\n    <key>Label</key>\n    <string>",
        TB_PLIST_LABEL,
        "</string>\n    <key>ProgramArguments</key>\n    <array>\n        <string>/sbin/ifconfig</string>\n        <string>bridge0</string>\n        <string>inet</string>\n        <string>",
    );
    push_str(&mut out, ip);
    push_str(&mut out, "</string>\n        <string>netmask</string>\n        <string>255.255.255.0</string>\n        <string>up</string>\n    </array>\n    <key>RunAtLoad</key>\n    <true/>\n    <key>StartInterval</key>\n    <integer>60</integer>\n</dict>\n</plist>\n");
    out
}

/// The LaunchDaemon that keeps `tailscaled` running.
pub open spec fn spec_tailscaled_plist(label: Seq<char>, daemon: Seq<char>) -> Seq<char> {
    "<?xml version=\"1.0\" encoding=\"UTF-8\"?>\n<!DOCTYPE plist PUBLIC \"-//Apple//DTD PLIST 1.0//EN\" \"http://www.apple.com/DTDs/PropertyList-1.0.dtd\">\n<plist version=\"1.0\">\n<dict>\n    <key>Label</key>\n    <string>"@
        + label
        + "</string>\n    <key>ProgramArguments</key>\n    <array>\n        <string>"@
        + daemon
        + "</string>\n    </array>\n    <key>RunAtLoad</key>\n    <true/>\n    <key>KeepAlive</key>\n    <true/>\n</dict>\n</plist>\n"@
}

pub fn tailscaled_plist(label: &str, daemon: &str) -> (out: String)
    ensures
        out@ == spec_tailscaled_plist(label@, daemon@),
{
    let mut out = concat3(
        "<?xml version=\"1.0\" encoding=\"UTF-8\"?>\n<!DOCTYPE plist PUBLIC \"-//Apple//DTD PLIST 1.0//EN\" \"http://www.apple.com/DTDs/PropertyList-1.0.dtd\">\n<plist version=\"1.0\">\n<dict>\n    <key>Label</key>\n    <string>",
        label,
        "</string>\n    <key>ProgramArguments</key>\n    <array>\n        <string>",
    );
    push_str(&mut out, daemon);
    push_str(&mut out, "</string>\n    </array>\n    <key>RunAtLoad</key>\n    <true/>\n    <key>KeepAlive</key>\n    <true/>\n</dict>\n</plist>\n");
    out
}

// ---------------------------------------------------------------------------
// Messages of the sharing and login steps
// ---------------------------------------------------------------------------

/// `launchctl bootstrap` failed for another reason than the service being
/// loaded already or in progress, so `load -w` is tried.
pub open spec fn spec_bootstrap_needs_load(ok: bool, out: Seq<char>) -> bool {
    !ok && !contains_text(lower_ascii(out), "already"@) && !contains_text(lower_ascii(out), "in progress"@)
}

pub fn bootstrap_needs_load(ok: bool, out: &str) -> (b: bool)
    ensures
        b == spec_bootstrap_needs_load(ok, out@),
{
    let v = chars_of(out);
    let l = lower_ascii_chars(v.as_slice());
    let a = chars_of("already");
    let p = chars_of("in progress");
    !ok && !contains_chars(l.as_slice(), a.as_slice()) && !contains_chars(l.as_slice(), p.as_slice())
}

/// `systemsetup -getremotelogin` succeeded and says `Remote Login: On`
/// (not merely the word "on" inside a Full Disk Access complaint).
pub open spec fn spec_remote_login_reported_on(ok: bool, text: Seq<char>) -> bool {
    ok && contains_text(lower_ascii(text), "remote login: on"@)
}

pub fn remote_login_reported_on(ok: bool, text: &str) -> (b: bool)
    ensures
        b == spec_remote_login_reported_on(ok, text@),
{
    let v = chars_of(text);
    let l = lower_ascii_chars(v.as_slice());
    let p = chars_of("remote login: on");
    ok && contains_chars(l.as_slice(), p.as_slice())
}

/// `label: output` with the output trimmed.
pub fn launch_note(label: &str, out: &str) -> (r: String)
    ensures
        r@ == label@ + ": "@ + trim(out@),
{
    let t = trim_str(out);
    concat3(label, ": ", t.as_str())
}

/// `head`, then `": " + extra` when the trimmed extra is not empty.
pub open spec fn with_extra(head: Seq<char>, sep: Seq<char>, extra: Seq<char>) -> Seq<char> {
    if trim(extra).len() > 0 {
        head + sep + trim(extra)
    } else {
        head
    }
}

fn push_extra(out: &mut String, sep: &str, extra: &str)
    ensures
        final(out)@ == with_extra(old(out)@, sep@, extra@),
{
    let t = trim_str(extra);
    if !t.as_str().is_empty() {
        push_str(out, sep);
        push_str(out, t.as_str());
    }
}

/// Why Screen Sharing is still off after the bootstrap attempt.
pub open spec fn spec_screen_sharing_off_detail(launch: Seq<char>) -> Seq<char> {
    with_extra("Screen Sharing still off"@, ": "@, launch)
        + ". System Settings > General > Sharing > Screen Sharing, or grant Terminal Full Disk Access"@
}

pub fn screen_sharing_off_detail(launch: &str) -> (r: String)
    ensures
        r@ == spec_screen_sharing_off_detail(launch@),
{
    let mut d = owned("Screen Sharing still off");
    push_extra(&mut d, ": ", launch);
    push_str(&mut d, ". System Settings > General > Sharing > Screen Sharing, or grant Terminal Full Disk Access");
    d
}

/// Why remote login is still off after `systemsetup` and the bootstrap attempt.
pub open spec fn spec_remote_login_off_detail(out: Seq<char>, launch: Seq<char>) -> Seq<char> {
    with_extra(with_extra("remote login still off"@, ": "@, out), "; "@, launch)
        + ". System Settings > General > Sharing > Remote Login, or grant Terminal Full Disk Access"@
}

pub fn remote_login_off_detail(out: &str, launch: &str) -> (r: String)
    ensures
        r@ == spec_remote_login_off_detail(out@, launch@),
{
    let mut d = owned("remote login still off");
    push_extra(&mut d, ": ", out);
    push_extra(&mut d, "; ", launch);
    push_str(&mut d, ". System Settings > General > Sharing > Remote Login, or grant Terminal Full Disk Access");
    d
}

/// The remote-login report with the keepalive note appended, when there is one.
pub fn with_keepalive(report: StepReport, keepalive: Option<String>) -> (r: StepReport)
    requires
        report.ok,
    ensures
        r.ok,
        r.detail@ == (match keepalive {
            Some(m) => report.detail@ + "; "@ + m@,
            None => report.detail@,
        }),
{
    match keepalive {
        Some(m) => StepReport { ok: true, detail: concat3(report.detail.as_str(), "; ", m.as_str()) },
        None => StepReport { ok: true, detail: report.detail },
    }
}

} // verus!
