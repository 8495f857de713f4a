//! `rig init`: a host file for this machine, from the role's example (or a
//! default), named after the machine and with no pinned OS.
use vstd::prelude::*;
use crate::error::{msg_text, RigError};
use crate::paths::{join, join_path};
use crate::schema::host::lines_strings;
use crate::schema::{current_hostname, short_host, short_host_exec, unicode_lowercase};
use crate::text::{
    chars_of, concat2, concat3, has_char, join as join_text, join_strings, lines, owned, push_str,
    starts_with, starts_with_chars, str_eq, trim_start, trim_start_chars, views,
};

verus! {

/// A line that assigns the name (it starts with `name` once indented).
pub open spec fn is_name_line(l: Seq<char>) -> bool {
    starts_with(trim_start(l), "name"@)
}

/// Index of the first name line at or after `i` (or the length).
pub open spec fn first_name_line(ls: Seq<Seq<char>>, i: int) -> int
    decreases ls.len() - i,
{
    if i >= ls.len() || i < 0 {
        ls.len() as int
    } else if is_name_line(ls[i]) {
        i
    } else {
        first_name_line(ls, i + 1)
    }
}

pub open spec fn name_assignment(name: Seq<char>) -> Seq<char> {
    "name = \""@ + name + "\""@
}

/// The file with its first name line set to `name`, or the assignment put
/// first when there is none; lines end in a newline.
pub open spec fn spec_rewrite_name(toml: Seq<char>, name: Seq<char>) -> Seq<char> {
    let ls = lines(toml);
    let k = first_name_line(ls, 0);
    let out = if k < ls.len() {
        ls.update(k, name_assignment(name))
    } else {
        seq![name_assignment(name)] + ls
    };
    join_text(out, "\n"@) + "\n"@
}

fn is_name_line_exec(l: &str) -> (b: bool)
    ensures
        b == is_name_line(l@),
{
    let v = chars_of(l);
    let t = trim_start_chars(v.as_slice());
    let n = chars_of("name");
    starts_with_chars(t.as_slice(), n.as_slice())
}

pub fn rewrite_name(toml: &str, name: &str) -> (r: String)
    ensures
        r@ == spec_rewrite_name(toml@, name@),
{
    let mut ls = lines_strings(toml);
    let ghost lv = views(ls@);
    let assign = concat3("name = \"", name, "\"");
    let mut k: usize = 0;
    while k < ls.len() && !is_name_line_exec(ls[k].as_str())
        invariant
            k <= ls.len(),
            lv == views(ls@),
            first_name_line(lv, k as int) == first_name_line(lv, 0),
        decreases ls.len() - k,
    {
        k = k + 1;
    }
    if k < ls.len() {
        ls.set(k, assign);
        assert(views(ls@) =~= lv.update(k as int, name_assignment(name@)));
    } else {
        ls.insert(0, assign);
        assert(views(ls@) =~= seq![name_assignment(name@)] + lv);
    }
    let j = join_strings(ls.as_slice(), "\n");
    concat2(j.as_str(), "\n")
}

/// An active `os = ...` assignment (not a comment).
pub open spec fn is_os_line(l: Seq<char>) -> bool {
    let t = trim_start(l);
    starts_with(t, "os"@) && t.contains('=') && !starts_with(t, "#"@)
}

pub open spec fn os_hint() -> Seq<char> {
    "# os omitted → auto-detect at apply"@
}

/// The first `n` lines without their OS assignments, a hint in place of
/// the first; and whether there was one.
pub open spec fn strip_os_upto(ls: Seq<Seq<char>>, n: int) -> (Seq<Seq<char>>, bool)
    decreases n,
{
    if n <= 0 {
        (seq![], false)
    } else {
        let (out, hinted) = strip_os_upto(ls, n - 1);
        if is_os_line(ls[n - 1]) {
            if hinted {
                (out, true)
            } else {
                (out.push(os_hint()), true)
            }
        } else {
            (out.push(ls[n - 1]), hinted)
        }
    }
}

/// The file without active OS assignments, so that apply detects the OS.
pub open spec fn spec_strip_os_assignment(toml: Seq<char>) -> Seq<char> {
    let ls = lines(toml);
    join_text(strip_os_upto(ls, ls.len() as int).0, "\n"@) + "\n"@
}

fn is_os_line_exec(l: &str) -> (b: bool)
    ensures
        b == is_os_line(l@),
{
    let v = chars_of(l);
    let t = trim_start_chars(v.as_slice());
    let os = chars_of("os");
    let hash = chars_of("#");
    starts_with_chars(t.as_slice(), os.as_slice()) && has_char(t.as_slice(), '=') && !starts_with_chars(
        t.as_slice(),
        hash.as_slice(),
    )
}

pub fn strip_os_assignment(toml: &str) -> (r: String)
    ensures
        r@ == spec_strip_os_assignment(toml@),
{
    let ls = lines_strings(toml);
    let ghost lv = views(ls@);
    let mut out: Vec<String> = Vec::new();
    let mut hinted = false;
    let mut i: usize = 0;
    while i < ls.len()
        invariant
            i <= ls.len(),
            lv == views(ls@),
            (views(out@), hinted) == strip_os_upto(lv, i as int),
        decreases ls.len() - i,
    {
        let ghost b = views(out@);
        assert(lv[i as int] == ls@[i as int]@);
        if is_os_line_exec(ls[i].as_str()) {
            if !hinted {
                out.push(owned("# os omitted → auto-detect at apply"));
                assert(views(out@) =~= b.push(os_hint()));
                hinted = true;
            }
        } else {
            out.push(owned(ls[i].as_str()));
            assert(views(out@) =~= b.push(lv[i as int]));
        }
        i = i + 1;
    }
    let j = join_strings(out.as_slice(), "\n");
    concat2(j.as_str(), "\n")
}

/// The host file written when the role has no example.
pub open spec fn spec_default_host_toml(role: Seq<char>) -> Seq<char> {
    "# Local host file (gitignored). Edit name and [[ssh]] by hand.\n# name = inventory id; OS hostname is not changed by rig.\n# [[ssh]] alias = SSH Host name you choose; link = vpn|lan|thunderbolt\nname = \"change-me\"\nrole = \""@
        + role
        + "\"\nschema_version = 1\n# os / shell omitted → auto-detect at apply\n# user = \"you\"\n# [[ssh]]\n# alias = \"change-me-lan\"\n# ip = \"192.168.x.x\"\n# link = \"lan\"\n"@
}

pub fn default_host_toml(role: &str) -> (r: String)
    ensures
        r@ == spec_default_host_toml(role@),
{
    concat3(
        "# Local host file (gitignored). Edit name and [[ssh]] by hand.\n# name = inventory id; OS hostname is not changed by rig.\n# [[ssh]] alias = SSH Host name you choose; link = vpn|lan|thunderbolt\nname = \"change-me\"\nrole = \"",
        role,
        "\"\nschema_version = 1\n# os / shell omitted → auto-detect at apply\n# user = \"you\"\n# [[ssh]]\n# alias = \"change-me-lan\"\n# ip = \"192.168.x.x\"\n# link = \"lan\"\n",
    )
}

/// The unknown-role error of `rig init`.
pub open spec fn unknown_role_text(role: Seq<char>, roles: Seq<Seq<char>>) -> Seq<char> {
    "unknown role `"@ + role + "` (have: "@ + join_text(roles, ", "@) + ")"@
}

/// Where `rig init` writes: the role must be one of `roles`; the file is
/// `<short name>.toml` in the inventory directory, the short name taken from
/// `name` or else from this machine's host name.
pub fn init_target(roles: &Vec<String>, role: &str, name: Option<&str>, hosts_dir: &str) -> (r: Result<
    (String, String),
    RigError,
>)
    ensures
        !views(roles@).contains(role@) ==> (r matches Err(e) && msg_text(e) == Some(
            unknown_role_text(role@, views(roles@)),
        )),
        views(roles@).contains(role@) ==> (r matches Ok((short, dest)) && dest@ == join_path(
            hosts_dir@,
            short@ + ".toml"@,
        ) && (match name {
            Some(n) => short@ == short_host(n@),
            None => exists|h: Seq<char>| short@ == short_host(#[trigger] unicode_lowercase(h)),
        })),
{
    let mut i: usize = 0;
    let mut found = false;
    while i < roles.len()
        invariant
            i <= roles.len(),
            found == exists|k: int| 0 <= k < i && views(roles@)[k] == role@,
        decreases roles.len() - i,
    {
        if str_eq(roles[i].as_str(), role) {
            found = true;
        }
        assert(views(roles@)[i as int] == roles@[i as int]@);
        i = i + 1;
    }
    if !found {
        let j = join_strings(roles.as_slice(), ", ");
        let mut m = concat3("unknown role `", role, "` (have: ");
        push_str(&mut m, j.as_str());
        push_str(&mut m, ")");
        return Err(RigError::Msg(m));
    }
    let short = match name {
        Some(n) => short_host_exec(n),
        None => {
            let hn = current_hostname();
            let s = short_host_exec(hn.as_str());
            let ghost h = choose|h: Seq<char>| hn@ == unicode_lowercase(h);
            assert(s@ == short_host(unicode_lowercase(h)));
            s
        },
    };
    let f = concat2(short.as_str(), ".toml");
    let dest = join(hosts_dir, f.as_str());
    Ok((short, dest))
}

/// The error when the host file exists already.
pub fn already_exists(dest: &str) -> (e: RigError)
    ensures
        msg_text(e) == Some("already exists: "@ + dest@),
{
    RigError::Msg(concat2("already exists: ", dest))
}

/// `rig init` never overwrites: a host file already at `dest` stops it.
pub fn check_new_host_file(dest: &str, dest_exists: bool) -> (r: Result<(), RigError>)
    ensures
        !dest_exists <==> r is Ok,
        dest_exists ==> (r matches Err(e) && msg_text(e) == Some("already exists: "@ + dest@)),
{
    if dest_exists {
        Err(already_exists(dest))
    } else {
        Ok(())
    }
}

/// The example of a role in the inventory's `examples` directory.
pub fn example_path(hosts_dir: &str, role: &str) -> (r: String)
    ensures
        r@ == join_path(join_path(hosts_dir@, "examples"@), role@ + ".toml"@),
{
    let e = join(hosts_dir, "examples");
    let f = concat2(role, ".toml");
    join(e.as_str(), f.as_str())
}

/// The text of the new host file: the role's example (or the default), with
/// the name set to `short` and no pinned OS.
pub fn init_body(role: &str, short: &str, example: Option<&str>) -> (r: String)
    ensures
        r@ == spec_strip_os_assignment(
            spec_rewrite_name(
                match example {
                    Some(t) => t@,
                    None => spec_default_host_toml(role@),
                },
                short@,
            ),
        ),
{
    let body = match example {
        Some(t) => owned(t),
        None => default_host_toml(role),
    };
    let named = rewrite_name(body.as_str(), short);
    strip_os_assignment(named.as_str())
}

/// What `rig init` prints after writing `dest`.
pub fn init_done(dest: &str) -> (r: Vec<String>)
    ensures
        views(r@) == seq![
            "wrote "@ + dest@,
            "os/shell auto-detect at apply (override in the toml if needed)"@,
            "edit [[ssh]] aliases by hand if needed, then: rig apply --dry-run"@,
        ],
{
    let mut r: Vec<String> = Vec::new();
    r.push(concat2("wrote ", dest));
    r.push(owned("os/shell auto-detect at apply (override in the toml if needed)"));
    r.push(owned("edit [[ssh]] aliases by hand if needed, then: rig apply --dry-run"));
    assert(views(r@) =~= seq![
        "wrote "@ + dest@,
        "os/shell auto-detect at apply (override in the toml if needed)"@,
        "edit [[ssh]] aliases by hand if needed, then: rig apply --dry-run"@,
    ]);
    r
}

/// A new host file never pins the OS: no line kept by
/// `strip_os_assignment` assigns `os`.
pub proof fn law_init_pins_no_os(ls: Seq<Seq<char>>, n: int)
    requires
        0 <= n <= ls.len(),
    ensures
        forall|i: int| 0 <= i < strip_os_upto(ls, n).0.len() ==> !is_os_line(#[trigger] strip_os_upto(ls, n).0[i]),
    decreases n,
{
    if n > 0 {
        law_init_pins_no_os(ls, n - 1);
        let prev = strip_os_upto(ls, n - 1).0;
        reveal_strlit("# os omitted → auto-detect at apply");
        reveal_strlit("os");
        let h = os_hint();
        assert(h[0] == '#');
        assert(trim_start(h) =~= h);
        assert(!starts_with(h, "os"@));
    }
}

} // verus!
