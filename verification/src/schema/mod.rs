//! Host and role files, and matching this machine to a host file.
use vstd::prelude::*;
use vstd::multiset::Multiset;

pub mod host;
pub mod role;

pub use host::{Host, HostFeatures, HostPackages, LinkKind, ShellKind, SshPath};
pub use host::{detect_os, detect_shell};
pub use role::{OsKind, Role, RoleFeatures};

use crate::order::{lex_le, lemma_lex_refl, lemma_lex_total, lemma_lex_trans, sort_strings, sort_dedup_strings, string_le, sorted_lex, strictly_sorted_lex};
use crate::text::{
    before_char, before_char_chars, chars_eq, chars_of, concat2, concat3, copy_range, join,
    join_strings, lower_ascii, lower_ascii_chars, owned, push_str, string_of, views,
};

verus! {

broadcast use vstd::seq_lib::group_to_multiset_ensures;

// ---------------------------------------------------------------------------
// File names
// ---------------------------------------------------------------------------

/// Index of the last `c` before `j` (or -1).
pub open spec fn last_before(s: Seq<char>, j: int, c: char) -> int
    decreases j,
{
    if j <= 0 {
        -1
    } else if j <= s.len() && s[j - 1] == c {
        j - 1
    } else {
        last_before(s, j - 1, c)
    }
}

pub proof fn lemma_last_before(s: Seq<char>, j: int, c: char)
    requires
        0 <= j <= s.len(),
    ensures
        -1 <= last_before(s, j, c) < j,
        last_before(s, j, c) >= 0 ==> s[last_before(s, j, c)] == c,
    decreases j,
{
    if j > 0 && s[j - 1] != c {
        lemma_last_before(s, j - 1, c);
    }
}

fn last_before_exec(s: &[char], c: char) -> (k: Option<usize>)
    ensures
        match k {
            Some(i) => last_before(s@, s.len() as int, c) == i,
            None => last_before(s@, s.len() as int, c) == -1,
        },
{
    let mut j = s.len();
    while j > 0 && s[j - 1] != c
        invariant
            j <= s.len(),
            last_before(s@, j as int, c) == last_before(s@, s.len() as int, c),
        decreases j,
    {
        j = j - 1;
    }
    if j == 0 {
        None
    } else {
        Some(j - 1)
    }
}

/// The last component of a `/`-separated path.
pub open spec fn file_name(path: Seq<char>) -> Seq<char> {
    path.subrange(last_before(path, path.len() as int, '/') + 1, path.len() as int)
}

/// `Path::file_stem` and `Path::extension` of a file name: split at the last
/// dot unless the name is `..` or the dot leads the name.
pub open spec fn stem_and_extension(name: Seq<char>) -> (Seq<char>, Option<Seq<char>>) {
    let k = last_before(name, name.len() as int, '.');
    if name == ".."@ || k <= 0 {
        (name, None)
    } else {
        (name.subrange(0, k), Some(name.subrange(k + 1, name.len() as int)))
    }
}

/// The last component of a path (`Path::file_name`, for paths without a trailing `/`).
pub fn file_name_of(path: &str) -> (out: String)
    ensures
        out@ == file_name(path@),
{
    let v = chars_of(path);
    proof {
        lemma_last_before(path@, path@.len() as int, '/');
    }
    let start = match last_before_exec(v.as_slice(), '/') {
        Some(k) => k + 1,
        None => 0,
    };
    let t = copy_range(v.as_slice(), start, v.len());
    string_of(t.as_slice())
}

/// Stem and extension of a file name.
pub fn split_extension(name: &str) -> (r: (String, Option<String>))
    ensures
        r.0@ == stem_and_extension(name@).0,
        match r.1 {
            Some(e) => stem_and_extension(name@).1 == Some(e@),
            None => stem_and_extension(name@).1 is None,
        },
{
    let v = chars_of(name);
    let dots = chars_of("..");
    proof {
        lemma_last_before(name@, name@.len() as int, '.');
    }
    if chars_eq(v.as_slice(), dots.as_slice()) {
        return (string_of(v.as_slice()), None);
    }
    match last_before_exec(v.as_slice(), '.') {
        Some(k) => {
            if k == 0 {
                (string_of(v.as_slice()), None)
            } else {
                let stem = copy_range(v.as_slice(), 0, k);
                let ext = copy_range(v.as_slice(), k + 1, v.len());
                (string_of(stem.as_slice()), Some(string_of(ext.as_slice())))
            }
        },
        None => (string_of(v.as_slice()), None),
    }
}

/// Whether a file name has the extension `toml`.
pub open spec fn is_toml_name(name: Seq<char>) -> bool {
    stem_and_extension(name).1 == Some("toml"@)
}

pub fn is_toml_file(name: &str) -> (b: bool)
    ensures
        b == is_toml_name(name@),
{
    let (_, ext) = split_extension(name);
    match ext {
        Some(e) => str_is(e.as_str(), "toml"),
        None => false,
    }
}

fn str_is(a: &str, b: &str) -> (r: bool)
    ensures
        r == (a@ == b@),
{
    let va = chars_of(a);
    let vb = chars_of(b);
    chars_eq(va.as_slice(), vb.as_slice())
}

/// The stems of the `.toml` names among `names`, in order.
pub open spec fn toml_stems(names: Seq<Seq<char>>) -> Seq<Seq<char>>
    decreases names.len(),
{
    if names.len() == 0 {
        seq![]
    } else {
        let rest = toml_stems(names.drop_last());
        if is_toml_name(names.last()) {
            rest.push(stem_and_extension(names.last()).0)
        } else {
            rest
        }
    }
}

/// Role names from the file names of `roles/`: the stems of the `.toml` files, sorted.
pub fn role_names(file_names: &Vec<String>) -> (out: Vec<String>)
    ensures
        sorted_lex(views(out@)),
        views(out@).to_multiset() == toml_stems(views(file_names@)).to_multiset(),
{
    let mut names: Vec<String> = Vec::new();
    let mut i: usize = 0;
    while i < file_names.len()
        invariant
            i <= file_names.len(),
            views(names@) == toml_stems(views(file_names@.subrange(0, i as int))),
        decreases file_names.len() - i,
    {
        let ghost pre = views(file_names@.subrange(0, i as int));
        let ghost cur = views(file_names@.subrange(0, i + 1));
        assert(cur.drop_last() =~= pre);
        assert(cur.last() == file_names@[i as int]@);
        let ghost before = views(names@);
        if is_toml_file(file_names[i].as_str()) {
            let (stem, _) = split_extension(file_names[i].as_str());
            names.push(stem);
            assert(views(names@) =~= before.push(stem_and_extension(file_names@[i as int]@).0));
        }
        i = i + 1;
    }
    assert(file_names@.subrange(0, file_names.len() as int) =~= file_names@);
    sort_strings(names)
}

// ---------------------------------------------------------------------------
// Sorting host files by name
// ---------------------------------------------------------------------------

pub open spec fn host_names_sorted(s: Seq<(String, Host)>) -> bool {
    forall|i: int, j: int| 0 <= i < j < s.len() ==> lex_le(#[trigger] s[i].1.name@, #[trigger] s[j].1.name@)
}

fn min_host_index(v: &Vec<(String, Host)>) -> (m: usize)
    requires
        v.len() > 0,
    ensures
        m < v.len(),
        forall|k: int| 0 <= k < v.len() ==> lex_le(v@[m as int].1.name@, #[trigger] v@[k].1.name@),
{
    let mut m: usize = 0;
    let mut k: usize = 1;
    proof {
        lemma_lex_refl(v@[0].1.name@);
    }
    while k < v.len()
        invariant
            m < k <= v.len(),
            forall|j: int| 0 <= j < k ==> lex_le(v@[m as int].1.name@, #[trigger] v@[j].1.name@),
        decreases v.len() - k,
    {
        if !string_le(&v[m].1.name, &v[k].1.name) {
            proof {
                lemma_lex_total(v@[m as int].1.name@, v@[k as int].1.name@);
                assert forall|j: int| 0 <= j < k + 1 implies lex_le(
                    v@[k as int].1.name@,
                    #[trigger] v@[j].1.name@,
                ) by {
                    if j < k {
                        lemma_lex_trans(v@[k as int].1.name@, v@[m as int].1.name@, v@[j].1.name@);
                    } else {
                        lemma_lex_refl(v@[k as int].1.name@);
                    }
                }
            }
            m = k;
        }
        k = k + 1;
    }
    m
}

/// Host files ordered by host name (`load_hosts` returns them so).
pub fn sort_hosts_by_name(v: Vec<(String, Host)>) -> (out: Vec<(String, Host)>)
    ensures
        host_names_sorted(out@),
        out@.to_multiset() == v@.to_multiset(),
{
    let mut rest = v;
    let mut out: Vec<(String, Host)> = Vec::new();
    let ghost orig = rest@;
    while rest.len() > 0
        invariant
            host_names_sorted(out@),
            forall|i: int, j: int|
                0 <= i < out.len() && 0 <= j < rest.len() ==> lex_le(
                    #[trigger] out@[i].1.name@,
                    #[trigger] rest@[j].1.name@,
                ),
            out@.to_multiset().add(rest@.to_multiset()) == orig.to_multiset(),
        decreases rest.len(),
    {
        let m = min_host_index(&rest);
        let ghost old_rest = rest@;
        let ghost old_out = out@;
        let x = rest.remove(m);
        out.push(x);
        proof {
            assert(old_rest[m as int] == x);
            assert(out@.to_multiset() =~= old_out.to_multiset().insert(x));
            assert(rest@.to_multiset() =~= old_rest.to_multiset().remove(x));
            assert(old_rest.contains(x));
            assert(out@.to_multiset().add(rest@.to_multiset()) =~= old_out.to_multiset().add(
                old_rest.to_multiset(),
            ));
            assert forall|i: int, j: int|
                0 <= i < out.len() && 0 <= j < rest.len() implies lex_le(
                #[trigger] out@[i].1.name@,
                #[trigger] rest@[j].1.name@,
            ) by {
                if j < m {
                    assert(rest@[j] == old_rest[j]);
                } else {
                    assert(rest@[j] == old_rest[j + 1]);
                }
            }
            assert forall|i: int, j: int| 0 <= i < j < out@.len() implies lex_le(
                #[trigger] out@[i].1.name@,
                #[trigger] out@[j].1.name@,
            ) by {
                if j < out.len() - 1 {
                    assert(out@[i] == old_out[i] && out@[j] == old_out[j]);
                }
            }
        }
    }
    proof {
        assert(rest@.to_multiset() =~= Multiset::empty());
        assert(out@.to_multiset().add(Multiset::empty()) =~= out@.to_multiset());
    }
    out
}

// ---------------------------------------------------------------------------
// Matching this machine
// ---------------------------------------------------------------------------

/// The short host name: the part before the first dot.
pub open spec fn short_host(name: Seq<char>) -> Seq<char> {
    before_char(name, '.')
}

pub fn short_host_exec(name: &str) -> (out: String)
    ensures
        out@ == short_host(name@),
{
    let v = chars_of(name);
    let s = before_char_chars(v.as_slice(), '.');
    string_of(s.as_slice())
}

/// A lower-cased inventory name (or file stem) that equals one of the machine's
/// ids, shares its short form, or equals its short form.
pub open spec fn raw_hits(raw: Seq<char>, ids: Seq<Seq<char>>) -> bool {
    raw.len() > 0 && exists|i: int|
        0 <= i < ids.len() && (raw == #[trigger] ids[i] || short_host(raw) == short_host(ids[i])
            || raw == short_host(ids[i]))
}

pub open spec fn spec_identity_hit(ids: Seq<Seq<char>>, name: Seq<char>, stem: Seq<char>) -> bool {
    raw_hits(lower_ascii(name), ids) || raw_hits(lower_ascii(stem), ids)
}

fn raw_hits_exec(raw: &Vec<char>, ids: &[String]) -> (b: bool)
    ensures
        b == raw_hits(raw@, views(ids@)),
{
    if raw.len() == 0 {
        return false;
    }
    let raw_short = before_char_chars(raw.as_slice(), '.');
    let mut i: usize = 0;
    while i < ids.len()
        invariant
            i <= ids.len(),
            raw@.len() > 0,
            raw_short@ == short_host(raw@),
            forall|k: int|
                0 <= k < i ==> !(raw@ == #[trigger] views(ids@)[k] || short_host(raw@)
                    == short_host(views(ids@)[k]) || raw@ == short_host(views(ids@)[k])),
        decreases ids.len() - i,
    {
        let id = chars_of(ids[i].as_str());
        let id_short = before_char_chars(id.as_slice(), '.');
        assert(views(ids@)[i as int] == id@);
        if chars_eq(raw.as_slice(), id.as_slice()) || chars_eq(raw_short.as_slice(), id_short.as_slice())
            || chars_eq(raw.as_slice(), id_short.as_slice()) {
            return true;
        }
        i = i + 1;
    }
    false
}

/// Whether an inventory name or a host file's stem names this machine.
pub fn identity_hit(machine_ids: &[String], inventory_name: &str, file_stem: &str) -> (b: bool)
    ensures
        b == spec_identity_hit(views(machine_ids@), inventory_name@, file_stem@),
{
    let inv = chars_of(inventory_name);
    let inv = lower_ascii_chars(inv.as_slice());
    let stem = chars_of(file_stem);
    let stem = lower_ascii_chars(stem.as_slice());
    raw_hits_exec(&inv, machine_ids) || raw_hits_exec(&stem, machine_ids)
}

/// The stem of the file name of `path` (`Path::file_stem`).
pub open spec fn path_stem(path: Seq<char>) -> Seq<char> {
    stem_and_extension(file_name(path)).0
}

/// Index of the first host at or after `i` that names this machine (or the length).
pub open spec fn first_hit(hosts: Seq<(String, Host)>, ids: Seq<Seq<char>>, i: int) -> int
    decreases hosts.len() - i,
{
    if i < 0 || i >= hosts.len() {
        hosts.len() as int
    } else if spec_identity_hit(ids, hosts[i].1.name@, path_stem(hosts[i].0@)) {
        i
    } else {
        first_hit(hosts, ids, i + 1)
    }
}

/// The first host, in order, whose name or file stem names this machine.
pub fn detect_current_host<'a>(hosts: &'a [(String, Host)], machine_ids: &[String]) -> (r: Option<&'a Host>)
    ensures
        first_hit(hosts@, views(machine_ids@), 0) < hosts@.len() ==> r == Some(
            &hosts@[first_hit(hosts@, views(machine_ids@), 0)].1,
        ),
        first_hit(hosts@, views(machine_ids@), 0) >= hosts@.len() ==> r is None,
{
    let mut i: usize = 0;
    while i < hosts.len()
        invariant
            i <= hosts.len(),
            first_hit(hosts@, views(machine_ids@), i as int) == first_hit(
                hosts@,
                views(machine_ids@),
                0,
            ),
        decreases hosts.len() - i,
    {
        let name = file_name_of(hosts[i].0.as_str());
        let (stem, _) = split_extension(name.as_str());
        if identity_hit(machine_ids, hosts[i].1.name.as_str(), stem.as_str()) {
            return Some(&hosts[i].1);
        }
        i = i + 1;
    }
    None
}

/// `ids` holds exactly the host name and its short form, and when given the
/// local host name and its short form.
pub open spec fn ids_of_names(ids: Seq<Seq<char>>, hostname: Seq<char>, local: Option<Seq<char>>) -> bool {
    forall|x: Seq<char>|
        #[trigger] ids.contains(x) <==> (x == hostname || x == short_host(hostname) || (local is Some && (x
            == local->0 || x == short_host(local->0))))
}

/// Names that identify this machine: the host name and its short form, and
/// when given the local host name and its short form; sorted, without repeats.
pub fn machine_ids_from(hostname: &str, local: Option<&str>) -> (out: Vec<String>)
    ensures
        strictly_sorted_lex(views(out@)),
        forall|x: Seq<char>|
            views(out@).contains(x) <==> (x == hostname@ || x == short_host(hostname@) || (
            local is Some && (x == local->0@ || x == short_host(local->0@)))),
{
    let mut ids: Vec<String> = Vec::new();
    ids.push(owned(hostname));
    ids.push(short_host_exec(hostname));
    match local {
        Some(l) => {
            ids.push(owned(l));
            ids.push(short_host_exec(l));
            assert(views(ids@) =~= seq![hostname@, short_host(hostname@), l@, short_host(l@)]);
        },
        None => {
            assert(views(ids@) =~= seq![hostname@, short_host(hostname@)]);
        },
    }
    let ghost all = views(ids@);
    proof {
        assert forall|x: Seq<char>|
            all.contains(x) <==> (x == hostname@ || x == short_host(hostname@) || (local is Some
                && (x == local->0@ || x == short_host(local->0@)))) by {
            if x == hostname@ {
                assert(all[0] == x);
            }
            if x == short_host(hostname@) {
                assert(all[1] == x);
            }
            if local is Some && x == local->0@ {
                assert(all[2] == x);
            }
            if local is Some && x == short_host(local->0@) {
                assert(all[3] == x);
            }
        }
    }
    sort_dedup_strings(ids)
}

/// `str::to_lowercase` (full Unicode lower-casing).
pub uninterp spec fn unicode_lowercase(s: Seq<char>) -> Seq<char>;

/// `str::to_lowercase`: its result is `unicode_lowercase` of the text.
#[verifier::external_body]
pub(crate) fn to_lowercase(s: &str) -> (r: String)
    ensures
        r@ == unicode_lowercase(s@),
{
    s.to_lowercase()
}

/// `whoami::fallible::hostname`, with the error dropped.
#[verifier::external_body]
fn os_hostname() -> Option<String> {
    whoami::fallible::hostname().ok()
}

/// The lower-cased host name, `unknown` when none could be read.
pub fn hostname_or_unknown(h: Option<&str>) -> (r: String)
    ensures
        r@ == unicode_lowercase(
            match h {
                Some(s) => s@,
                None => "unknown"@,
            },
        ),
{
    match h {
        Some(s) => to_lowercase(s),
        None => to_lowercase("unknown"),
    }
}

/// This machine's host name, lower-cased (`unknown` when none can be read).
pub fn current_hostname() -> (r: String)
    ensures
        exists|h: Seq<char>| r@ == #[trigger] unicode_lowercase(h),
{
    match os_hostname() {
        Some(h) => hostname_or_unknown(Some(h.as_str())),
        None => hostname_or_unknown(None),
    }
}

/// Names that identify this machine; `local_hostname` is the macOS
/// `LocalHostName` when one could be read.
pub fn machine_ids(local_hostname: Option<&str>) -> (out: Vec<String>)
    ensures
        strictly_sorted_lex(views(out@)),
        exists|h: Seq<char>|
            ids_of_names(
                views(out@),
                #[trigger] unicode_lowercase(h),
                match local_hostname {
                    Some(l) => Some(unicode_lowercase(l@)),
                    None => None,
                },
            ),
{
    let hn = current_hostname();
    match local_hostname {
        Some(l) => {
            let lower = to_lowercase(l);
            let out = machine_ids_from(hn.as_str(), Some(lower.as_str()));
            assert(ids_of_names(views(out@), hn@, Some(lower@)));
            out
        },
        None => {
            let out = machine_ids_from(hn.as_str(), None);
            assert(ids_of_names(views(out@), hn@, None));
            out
        },
    }
}

/// The names of the hosts, in order.
pub open spec fn host_names(hosts: Seq<(String, Host)>) -> Seq<Seq<char>> {
    hosts.map_values(|h: (String, Host)| h.1.name@)
}

pub open spec fn spec_unregistered_hint(
    hosts_dir: Seq<char>,
    hostname: Seq<char>,
    hosts: Seq<(String, Host)>,
) -> Seq<char> {
    let short = short_host(hostname);
    if hosts.len() == 0 {
        "no host toml in "@ + hosts_dir + " (this OS hostname is "@ + hostname + ", short "@
            + short
            + "). clone the inventory git into ~/.rig-hosts or run `rig init`. product hosts/ is examples only"@
    } else {
        "this machine is not in ~/.rig-hosts (hostname="@ + hostname + ", short="@ + short
            + "). have: "@ + join(host_names(hosts), ", "@) + ". expected "@ + hosts_dir + "/"@
            + short + ".toml with name = \""@ + short + "\""@
    }
}

/// Why this machine could not be bound to a host file, for a given host name.
pub fn unregistered_hint_for(hosts_dir: &str, hostname: &str, hosts: &[(String, Host)]) -> (r: String)
    ensures
        r@ == spec_unregistered_hint(hosts_dir@, hostname@, hosts@),
{
    let short = short_host_exec(hostname);
    if hosts.len() == 0 {
        let mut m = concat3("no host toml in ", hosts_dir, " (this OS hostname is ");
        push_str(&mut m, hostname);
        push_str(&mut m, ", short ");
        push_str(&mut m, short.as_str());
        push_str(&mut m, "). clone the inventory git into ~/.rig-hosts or run `rig init`. product hosts/ is examples only");
        return m;
    }
    let mut names: Vec<String> = Vec::new();
    let mut i: usize = 0;
    while i < hosts.len()
        invariant
            i <= hosts.len(),
            views(names@) == host_names(hosts@.subrange(0, i as int)),
        decreases hosts.len() - i,
    {
        let ghost before = views(names@);
        names.push(hosts[i].1.name.clone());
        assert(views(names@) =~= before.push(hosts@[i as int].1.name@));
        assert(host_names(hosts@.subrange(0, i + 1)) =~= host_names(hosts@.subrange(0, i as int)).push(hosts@[i as int].1.name@));
        i = i + 1;
    }
    assert(hosts@.subrange(0, hosts.len() as int) =~= hosts@);
    let joined = join_strings(names.as_slice(), ", ");
    let mut m = concat3("this machine is not in ~/.rig-hosts (hostname=", hostname, ", short=");
    push_str(&mut m, short.as_str());
    push_str(&mut m, "). have: ");
    push_str(&mut m, joined.as_str());
    push_str(&mut m, ". expected ");
    push_str(&mut m, hosts_dir);
    push_str(&mut m, "/");
    push_str(&mut m, short.as_str());
    push_str(&mut m, ".toml with name = \"");
    push_str(&mut m, short.as_str());
    push_str(&mut m, "\"");
    m
}

/// Why `rig apply` / `keys` could not bind this machine to the inventory at `hosts_dir`.
pub fn unregistered_hint(hosts_dir: &str, hosts: &[(String, Host)]) -> (r: String)
    ensures
        exists|h: Seq<char>| r@ == #[trigger] spec_unregistered_hint(hosts_dir@, h, hosts@),
{
    let hn = current_hostname();
    unregistered_hint_for(hosts_dir, hn.as_str(), hosts)
}

} // verus!
