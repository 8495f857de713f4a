//! The terminal lines rig prints: a value column shared by all lines, marks
//! and labels padded to it, colours when the stream takes them, the home
//! directory shown as `~`, and long values shortened in the middle.
use vstd::prelude::*;
use crate::apply::features::{digit_value, digits_value, unsigned_digits};
use crate::paths::{join, join_path};
use crate::text::{
    chars_of, concat2, concat3, copy_range, is_ascii_digit, join as join_text, join_strings,
    lines, lines_of, owned, pad_right, pad_right_str, push_char, push_str, spaces, starts_with,
    starts_with_chars, string_of, trim, trim_str, views,
};

verus! {

pub const RESET: &'static str = "\x1b[0m";

pub const DIM: &'static str = "\x1b[2m";

pub const BOLD: &'static str = "\x1b[1m";

pub const RED: &'static str = "\x1b[31m";

pub const GREEN: &'static str = "\x1b[32m";

pub const CYAN: &'static str = "\x1b[36m";

pub const YELLOW: &'static str = "\x1b[33m";

pub const MAGENTA: &'static str = "\x1b[35m";

/// Width of the mark field (`ok`, `fail`, ...).
pub const MARK: usize = 4;

/// Width of the label field.
pub const LABEL: usize = 16;

/// The column where values start: indent, mark, space, label, space.
pub const VALUE_COL: usize = 24;

/// How one output stream takes lines: colours, whether it is a terminal, its
/// width, and the home directory (shown as `~`).
pub struct Style {
    pub color: bool,
    pub tty: bool,
    pub cols: usize,
    pub home: Option<String>,
}

pub open spec fn home_of(st: Style) -> Option<Seq<char>> {
    match st.home {
        Some(h) => Some(h@),
        None => None,
    }
}

pub open spec fn spec_wrap(on: bool, code: Seq<char>, s: Seq<char>) -> Seq<char> {
    if on {
        code + s + RESET@
    } else {
        s
    }
}

proof fn lemma_join_codes(a: Seq<char>, b: Seq<char>)
    ensures
        join_text(seq![a, b], ""@) == a + b,
{
    reveal_strlit("");
    let p = seq![a, b];
    assert(p.drop_last() =~= seq![a]);
    assert(join_text(seq![a], ""@) == a);
    assert(p.last() == b);
    assert(a + ""@ + b =~= a + b);
}

/// `s` between a colour code and the reset, when colours are on.
pub fn wrap(on: bool, code: &str, s: &str) -> (r: String)
    ensures
        r@ == spec_wrap(on, code@, s@),
{
    if on {
        concat3(code, s, RESET)
    } else {
        owned(s)
    }
}

/// `s` after several codes and before the reset, when colours are on.
pub fn paint(on: bool, codes: &[&str], s: &str) -> (r: String)
    ensures
        r@ == spec_wrap(on, join_text(codes@.map_values(|c: &str| c@), ""@), s@),
{
    if on {
        let mut parts: Vec<String> = Vec::new();
        let mut i: usize = 0;
        while i < codes.len()
            invariant
                i <= codes.len(),
                views(parts@) == codes@.subrange(0, i as int).map_values(|c: &str| c@),
            decreases codes.len() - i,
        {
            let ghost before = views(parts@);
            parts.push(owned(codes[i]));
            assert(views(parts@) =~= before.push(codes@[i as int]@));
            assert(codes@.subrange(0, i + 1).map_values(|c: &str| c@) =~= codes@.subrange(0, i as int).map_values(|c: &str| c@).push(codes@[i as int]@));
            i = i + 1;
        }
        assert(codes@.subrange(0, codes.len() as int) =~= codes@);
        let mut r = join_strings(parts.as_slice(), "");
        push_str(&mut r, s);
        push_str(&mut r, RESET);
        r
    } else {
        owned(s)
    }
}

/// The colour of a mark.
pub open spec fn spec_mark_code(mark: Seq<char>) -> Seq<char> {
    if mark == "ok"@ {
        GREEN@
    } else if mark == "fail"@ {
        RED@
    } else if mark == "do"@ {
        CYAN@
    } else {
        DIM@
    }
}

pub fn mark_code(mark: &str) -> (r: &'static str)
    ensures
        r@ == spec_mark_code(mark@),
{
    if crate::text::str_eq(mark, "ok") {
        GREEN
    } else if crate::text::str_eq(mark, "fail") {
        RED
    } else if crate::text::str_eq(mark, "do") {
        CYAN
    } else {
        DIM
    }
}

/// A mark padded to `width` in its colour.
pub fn mark_pad(mark: &str, width: usize, on: bool) -> (r: String)
    ensures
        r@ == spec_wrap(on, spec_mark_code(mark@), pad_right(mark@, width as nat)),
{
    let pad = pad_right_str(mark, width);
    wrap(on, mark_code(mark), pad.as_str())
}

// ---------------------------------------------------------------------------
// Shortening values
// ---------------------------------------------------------------------------

/// `s` with a leading home directory written `~`.
pub open spec fn spec_tilde_home(s: Seq<char>, home: Option<Seq<char>>) -> Seq<char> {
    match home {
        Some(h) => if starts_with(s, h) {
            "~"@ + s.subrange(h.len() as int, s.len() as int)
        } else {
            s
        },
        None => s,
    }
}

pub fn tilde_home(s: &str, home: Option<&str>) -> (r: String)
    ensures
        r@ == spec_tilde_home(s@, match home {
            Some(h) => Some(h@),
            None => None,
        }),
{
    match home {
        Some(h) => {
            let sc = chars_of(s);
            let hc = chars_of(h);
            if starts_with_chars(sc.as_slice(), hc.as_slice()) {
                let rest = copy_range(sc.as_slice(), hc.len(), sc.len());
                let rs = string_of(rest.as_slice());
                concat2("~", rs.as_str())
            } else {
                owned(s)
            }
        },
        None => owned(s),
    }
}

/// `s` cut to `max` characters: the start and the end around `…` (or only the
/// start when `max` is under 8).
pub open spec fn spec_ellipsize(s: Seq<char>, max: nat) -> Seq<char> {
    if s.len() <= max {
        s
    } else if max < 8 {
        s.subrange(0, max as int)
    } else {
        let keep = max - 1;
        let head = keep / 2;
        let tail = keep - head;
        s.subrange(0, head) + seq!['…'] + s.subrange(s.len() - tail, s.len() as int)
    }
}

pub fn ellipsize(s: &str, max: usize) -> (r: String)
    ensures
        r@ == spec_ellipsize(s@, max as nat),
{
    let c = chars_of(s);
    let n = c.len();
    if n <= max {
        return owned(s);
    }
    if max < 8 {
        return string_of(copy_range(c.as_slice(), 0, max).as_slice());
    }
    let keep = max - 1;
    let head = keep / 2;
    let tail = keep - head;
    let mut out = string_of(copy_range(c.as_slice(), 0, head).as_slice());
    push_char(&mut out, '…');
    let t = string_of(copy_range(c.as_slice(), n - tail, n).as_slice());
    push_str(&mut out, t.as_str());
    assert(out@ =~= c@.subrange(0, head as int) + seq!['…'] + c@.subrange(n - tail, n as int));
    out
}

/// A shortened value has exactly `max` characters, or all of them when it
/// fits already: it never spills past its column.
pub proof fn law_ellipsize_fits(s: Seq<char>, max: nat)
    ensures
        spec_ellipsize(s, max).len() == (if s.len() <= max {
            s.len()
        } else {
            max
        }),
{
}

/// Room for a value: the width past the value column, at least 24.
pub open spec fn spec_tidy_budget(cols: nat) -> nat {
    if cols >= 48 {
        (cols - 24) as nat
    } else {
        24
    }
}

/// A value as shown: `~` for the home directory, then, on a terminal, cut to
/// the room left of its width.
pub open spec fn spec_tidy(s: Seq<char>, st: Style) -> Seq<char> {
    let t = spec_tilde_home(s, home_of(st));
    if st.tty {
        spec_ellipsize(t, spec_tidy_budget(st.cols as nat))
    } else {
        t
    }
}

pub fn tidy(s: &str, st: &Style) -> (r: String)
    ensures
        r@ == spec_tidy(s@, *st),
{
    let t = match &st.home {
        Some(h) => tilde_home(s, Some(h.as_str())),
        None => tilde_home(s, None),
    };
    if !st.tty {
        return t;
    }
    let budget = if st.cols >= 48 {
        st.cols - 24
    } else {
        24
    };
    ellipsize(t.as_str(), budget)
}

/// `usize::from_str`: an optional `+`, then decimal digits worth at most `usize::MAX`.
pub open spec fn parses_usize(s: Seq<char>) -> bool {
    let d = unsigned_digits(s);
    d.len() > 0 && (forall|i: int| 0 <= i < d.len() ==> is_ascii_digit(#[trigger] d[i])) && digits_value(d)
        <= usize::MAX
}

pub fn parse_usize(s: &str) -> (r: Option<usize>)
    ensures
        parses_usize(s@) ==> r == Some(digits_value(unsigned_digits(s@)) as usize),
        !parses_usize(s@) ==> r is None,
{
    let c = chars_of(s);
    let start: usize = if c.len() > 0 && c[0] == '+' {
        1
    } else {
        0
    };
    let ghost d = unsigned_digits(s@);
    assert(d =~= c@.subrange(start as int, c.len() as int));
    if start >= c.len() {
        return None;
    }
    let mut value: usize = 0;
    let mut i = start;
    while i < c.len()
        invariant
            start <= i <= c.len(),
            c@ == s@,
            d == c@.subrange(start as int, c.len() as int),
            d == unsigned_digits(s@),
            forall|k: int| start <= k < i ==> is_ascii_digit(#[trigger] c@[k]),
            value == digits_value(c@.subrange(start as int, i as int)),
        decreases c.len() - i,
    {
        let ch = c[i];
        if !('0' <= ch && ch <= '9') {
            assert(d[i - start] == ch);
            return None;
        }
        let dv = (ch as u32 - '0' as u32) as usize;
        assert(dv == digit_value(ch));
        assert(c@.subrange(start as int, i + 1).drop_last() =~= c@.subrange(start as int, i as int));
        assert(c@.subrange(start as int, i + 1).last() == ch);
        if value > (usize::MAX - dv) / 10 {
            proof {
                crate::apply::features::lemma_digits_value_grows(d, (i + 1 - start) as int);
                assert(d.subrange(0, (i + 1 - start) as int) =~= c@.subrange(start as int, i + 1));
                assert(value * 10 + dv > usize::MAX) by (nonlinear_arith)
                    requires
                        value > (usize::MAX - dv) / 10,
                        dv <= 9,
                ;
            }
            return None;
        }
        assert(value * 10 + dv <= usize::MAX) by (nonlinear_arith)
            requires
                value <= (usize::MAX - dv) / 10,
                dv <= 9,
        ;
        value = value * 10 + dv;
        i = i + 1;
    }
    assert(c@.subrange(start as int, c.len() as int) =~= d);
    Some(value)
}

/// The terminal width: `$COLUMNS` when it is a number of at least 40, else
/// the width the terminal reports (at least 40), else 80.
pub fn term_cols(columns: Option<&str>, reported: Option<usize>) -> (n: usize)
    ensures
        n >= 40,
        (match columns {
            Some(v) => parses_usize(v@) && digits_value(unsigned_digits(v@)) >= 40,
            None => false,
        }) ==> n == digits_value(unsigned_digits(columns->0@)),
        !(match columns {
            Some(v) => parses_usize(v@) && digits_value(unsigned_digits(v@)) >= 40,
            None => false,
        }) ==> n == (match reported {
            Some(r) => if r >= 40 {
                r
            } else {
                80
            },
            None => 80,
        }),
{
    match columns {
        Some(v) => {
            match parse_usize(v) {
                Some(n) => {
                    if n >= 40 {
                        return n;
                    }
                },
                None => {},
            }
        },
        None => {},
    }
    match reported {
        Some(r) => if r >= 40 {
            r
        } else {
            80
        },
        None => 80,
    }
}

// ---------------------------------------------------------------------------
// Lines
// ---------------------------------------------------------------------------

/// A line with a mark and a label, then a value in `value_code` (none when empty).
pub open spec fn spec_field_line(
    st: Style,
    mark_code: Seq<char>,
    mark: Seq<char>,
    label_code: Seq<char>,
    label: Seq<char>,
    value_code: Seq<char>,
    value: Seq<char>,
) -> Seq<char> {
    "  "@ + spec_wrap(st.color, mark_code, pad_right(mark, 4)) + " "@ + spec_wrap(
        st.color,
        label_code,
        pad_right(label, 16),
    ) + " "@ + spec_wrap(st.color, value_code, value)
}

fn field_line(
    st: &Style,
    mark_code: &str,
    mark: &str,
    label_code: &str,
    label: &str,
    value_code: &str,
    value: &str,
) -> (r: String)
    ensures
        r@ == spec_field_line(*st, mark_code@, mark@, label_code@, label@, value_code@, value@),
{
    let m = pad_right_str(mark, MARK);
    let l = pad_right_str(label, LABEL);
    let mut r = owned("  ");
    let a = wrap(st.color, mark_code, m.as_str());
    push_str(&mut r, a.as_str());
    push_str(&mut r, " ");
    let b = wrap(st.color, label_code, l.as_str());
    push_str(&mut r, b.as_str());
    push_str(&mut r, " ");
    let c = wrap(st.color, value_code, value);
    push_str(&mut r, c.as_str());
    r
}

/// A `kv` line: a key, then its value in the value column.
pub open spec fn kv_line(st: Style, key: Seq<char>, value: Seq<char>) -> Seq<char> {
    spec_field_line(st, DIM@, ""@, DIM@, key, YELLOW@, spec_tidy(value, st))
}

/// A dim value in the value column, without a key (`kvc`, `item`, `empty`).
pub open spec fn dim_line(st: Style, value: Seq<char>) -> Seq<char> {
    spec_field_line(st, DIM@, ""@, DIM@, ""@, DIM@, spec_tidy(value, st))
}

/// A highlighted value in the value column, without a key (`item2`).
pub open spec fn item2_line(st: Style, value: Seq<char>) -> Seq<char> {
    spec_field_line(st, DIM@, ""@, DIM@, ""@, YELLOW@, spec_tidy(value, st))
}

/// `key` and its value in the value column.
pub fn kv(key: &str, value: &str, st: &Style) -> (r: String)
    ensures
        r@ == spec_field_line(*st, DIM@, ""@, DIM@, key@, YELLOW@, spec_tidy(value@, *st)),
{
    let v = tidy(value, st);
    field_line(st, DIM, "", DIM, key, YELLOW, v.as_str())
}

/// A dim value in the value column, without a key.
pub fn kvc(value: &str, st: &Style) -> (r: String)
    ensures
        r@ == spec_field_line(*st, DIM@, ""@, DIM@, ""@, DIM@, spec_tidy(value@, *st)),
{
    let v = tidy(value, st);
    field_line(st, DIM, "", DIM, "", DIM, v.as_str())
}

/// A nested labeled line: the same value column as `kv`.
pub fn note(key: &str, value: &str, st: &Style) -> (r: String)
    ensures
        r@ == spec_field_line(*st, DIM@, ""@, DIM@, key@, YELLOW@, spec_tidy(value@, *st)),
{
    kv(key, value, st)
}

/// A dim item in the value column.
pub fn item(s: &str, st: &Style) -> (r: String)
    ensures
        r@ == spec_field_line(*st, DIM@, ""@, DIM@, ""@, DIM@, spec_tidy(s@, *st)),
{
    kvc(s, st)
}

/// A highlighted item in the value column.
pub fn item2(s: &str, st: &Style) -> (r: String)
    ensures
        r@ == spec_field_line(*st, DIM@, ""@, DIM@, ""@, YELLOW@, spec_tidy(s@, *st)),
{
    let v = tidy(s, st);
    field_line(st, DIM, "", DIM, "", YELLOW, v.as_str())
}

/// A progress item in the value column.
pub fn progress(s: &str, st: &Style) -> (r: String)
    ensures
        r@ == spec_field_line(*st, DIM@, ""@, DIM@, ""@, CYAN@, spec_tidy(s@, *st)),
{
    let v = tidy(s, st);
    field_line(st, DIM, "", DIM, "", CYAN, v.as_str())
}

/// A message where a list has nothing to show.
pub fn empty(msg: &str, st: &Style) -> (r: String)
    ensures
        r@ == spec_field_line(*st, DIM@, ""@, DIM@, ""@, DIM@, spec_tidy(msg@, *st)),
{
    kvc(msg, st)
}

/// The command to run next.
pub fn next(cmd: &str, st: &Style) -> (r: String)
    ensures
        r@ == spec_field_line(*st, DIM@, ""@, DIM@, "next"@, YELLOW@, spec_tidy(cmd@, *st)),
{
    kv("next", cmd, st)
}

/// The closing lines of a preview: a blank line, then how to run it for real.
pub fn preview(action: &str, st: &Style) -> (r: Vec<String>)
    ensures
        views(r@) == seq![
            Seq::<char>::empty(),
            spec_field_line(*st, DIM@, ""@, DIM@, ""@, DIM@, spec_tidy("pass --yes (-y) to "@ + action@, *st)),
        ],
{
    let msg = concat2("pass --yes (-y) to ", action);
    let mut r: Vec<String> = Vec::new();
    r.push(String::new());
    r.push(kvc(msg.as_str(), st));
    assert(views(r@) =~= seq![
        Seq::<char>::empty(),
        spec_field_line(*st, DIM@, ""@, DIM@, ""@, DIM@, spec_tidy("pass --yes (-y) to "@ + action@, *st)),
    ]);
    r
}

/// A step line: its mark, its id, and its detail (trimmed and shortened),
/// the detail left out when empty.
pub open spec fn spec_step_line(st: Style, mark: Seq<char>, id: Seq<char>, detail: Seq<char>) -> Seq<char> {
    let d = spec_tidy(trim(detail), st);
    let head = "  "@ + spec_wrap(st.color, spec_mark_code(mark), pad_right(mark, 4)) + " "@ + spec_wrap(
        st.color,
        CYAN@,
        pad_right(id, 16),
    );
    if d.len() == 0 {
        head
    } else {
        head + " "@ + spec_wrap(st.color, YELLOW@, d)
    }
}

pub fn step(mark: &str, id: &str, detail: &str, st: &Style) -> (r: String)
    ensures
        r@ == spec_step_line(*st, mark@, id@, detail@),
{
    let m = pad_right_str(mark, MARK);
    let l = pad_right_str(id, LABEL);
    let mut r = owned("  ");
    let a = wrap(st.color, mark_code(mark), m.as_str());
    push_str(&mut r, a.as_str());
    push_str(&mut r, " ");
    let b = wrap(st.color, CYAN, l.as_str());
    push_str(&mut r, b.as_str());
    let t = trim_str(detail);
    let d = tidy(t.as_str(), st);
    if chars_of(d.as_str()).len() > 0 {
        push_str(&mut r, " ");
        let c = wrap(st.color, YELLOW, d.as_str());
        push_str(&mut r, c.as_str());
    }
    r
}

/// A plan line: `do` or `skip`.
pub fn plan(do_it: bool, id: &str, detail: &str, st: &Style) -> (r: String)
    ensures
        r@ == spec_step_line(*st, if do_it {
            "do"@
        } else {
            "skip"@
        }, id@, detail@),
{
    step(if do_it { "do" } else { "skip" }, id, detail, st)
}

pub fn ok(id: &str, detail: &str, st: &Style) -> (r: String)
    ensures
        r@ == spec_step_line(*st, "ok"@, id@, detail@),
{
    step("ok", id, detail, st)
}

pub fn fail(id: &str, detail: &str, st: &Style) -> (r: String)
    ensures
        r@ == spec_step_line(*st, "fail"@, id@, detail@),
{
    step("fail", id, detail, st)
}

pub fn skip(id: &str, detail: &str, st: &Style) -> (r: String)
    ensures
        r@ == spec_step_line(*st, "skip"@, id@, detail@),
{
    step("skip", id, detail, st)
}

/// A title, with a dim `preview` after it when previewing.
pub fn title(name: &str, preview: bool, st: &Style) -> (r: String)
    ensures
        r@ == spec_wrap(st.color, BOLD@ + CYAN@, name@) + (if preview {
            "  "@ + spec_wrap(st.color, DIM@, "preview"@)
        } else {
            seq![]
        }),
{
    let codes = [BOLD, CYAN];
    let mut n = paint(st.color, &codes, name);
    proof {
        reveal_strlit("");
        assert(codes@.map_values(|c: &str| c@) =~= seq![BOLD@, CYAN@]);
        lemma_join_codes(BOLD@, CYAN@);
    }
    let ghost before = n@;
    if preview {
        push_str(&mut n, "  ");
        let p = wrap(st.color, DIM, "preview");
        push_str(&mut n, p.as_str());
    } else {
        assert(n@ =~= before + Seq::<char>::empty());
    }
    n
}

/// A dim section heading.
pub fn section(name: &str, st: &Style) -> (r: String)
    ensures
        r@ == "  "@ + spec_wrap(st.color, DIM@, name@),
{
    let w = wrap(st.color, DIM, name);
    concat2("  ", w.as_str())
}

/// The header line of a table.
pub fn table_head(line: &str, st: &Style) -> (r: String)
    ensures
        r@ == "  "@ + spec_wrap(st.color, DIM@, line@),
{
    section(line, st)
}

/// A row of a table.
pub fn table_row(line: &str) -> (r: String)
    ensures
        r@ == "  "@ + line@,
{
    concat2("  ", line)
}

/// The lines of an error on standard error: a red `error`, then the message.
pub fn error(msg: &str, st: &Style) -> (r: Vec<String>)
    ensures
        views(r@) == seq![spec_wrap(st.color, BOLD@ + RED@, "error"@), "  "@ + spec_tidy(msg@, *st)],
{
    let codes = [BOLD, RED];
    let head = paint(st.color, &codes, "error");
    proof {
        reveal_strlit("");
        assert(codes@.map_values(|c: &str| c@) =~= seq![BOLD@, RED@]);
        lemma_join_codes(BOLD@, RED@);
    }
    let t = tidy(msg, st);
    let mut r: Vec<String> = Vec::new();
    r.push(head);
    r.push(concat2("  ", t.as_str()));
    assert(views(r@) =~= seq![spec_wrap(st.color, BOLD@ + RED@, "error"@), "  "@ + spec_tidy(msg@, *st)]);
    r
}

/// The `help` line under an error.
pub fn error_help(help: &str, st: &Style) -> (r: String)
    ensures
        r@ == spec_field_line(*st, DIM@, ""@, DIM@, "help"@, ""@, help@),
{
    let r = field_line(st, DIM, "", DIM, "help", "", help);
    r
}

/// The `cause` line under an error.
pub fn error_cause(msg: &str, st: &Style) -> (r: String)
    ensures
        r@ == spec_field_line(*st, DIM@, ""@, DIM@, "cause"@, ""@, msg@),
{
    field_line(st, DIM, "", DIM, "cause", "", msg)
}

/// Where rig's data is, on standard error: the root and the OS, the host
/// files and the overlay under it.
pub open spec fn spec_data_hint(root: Seq<char>, os: Seq<char>, st: Style) -> Seq<Seq<char>> {
    seq![
            spec_wrap(st.color, BOLD@ + CYAN@, "data"@),
            spec_field_line(st, DIM@, ""@, DIM@, "root"@, YELLOW@, spec_tidy(root, st)) + "  os="@
                + spec_wrap(st.color, YELLOW@, os),
            spec_field_line(st, DIM@, ""@, DIM@, "hosts"@, YELLOW@, spec_tidy(join_path(root, "hosts"@) + "/"@, st)),
            spec_field_line(st, DIM@, ""@, DIM@, "overlay"@, YELLOW@, spec_tidy(join_path(root, "overlay"@) + "/"@, st)),
        ]
}

pub fn data_hint(root: &str, os: &str, st: &Style) -> (r: Vec<String>)
    ensures
        views(r@) == spec_data_hint(root@, os@, *st),
{
    let codes = [BOLD, CYAN];
    let head = paint(st.color, &codes, "data");
    proof {
        reveal_strlit("");
        assert(codes@.map_values(|c: &str| c@) =~= seq![BOLD@, CYAN@]);
        lemma_join_codes(BOLD@, CYAN@);
    }
    let root_t = tidy(root, st);
    let mut l1 = field_line(st, DIM, "", DIM, "root", YELLOW, root_t.as_str());
    push_str(&mut l1, "  os=");
    let os_v = wrap(st.color, YELLOW, os);
    push_str(&mut l1, os_v.as_str());
    let hosts = join(root, "hosts");
    let hosts_dir = concat2(hosts.as_str(), "/");
    let ht = tidy(hosts_dir.as_str(), st);
    let l2 = field_line(st, DIM, "", DIM, "hosts", YELLOW, ht.as_str());
    let overlay = join(root, "overlay");
    let ov_dir = concat2(overlay.as_str(), "/");
    let ot = tidy(ov_dir.as_str(), st);
    let l3 = field_line(st, DIM, "", DIM, "overlay", YELLOW, ot.as_str());
    let mut r: Vec<String> = Vec::new();
    r.push(head);
    r.push(l1);
    r.push(l2);
    r.push(l3);
    assert(views(r@) =~= seq![
        spec_wrap(st.color, BOLD@ + CYAN@, "data"@),
        spec_field_line(*st, DIM@, ""@, DIM@, "root"@, YELLOW@, spec_tidy(root@, *st)) + "  os="@
            + spec_wrap(st.color, YELLOW@, os@),
        spec_field_line(*st, DIM@, ""@, DIM@, "hosts"@, YELLOW@, spec_tidy(join_path(root@, "hosts"@) + "/"@, *st)),
        spec_field_line(*st, DIM@, ""@, DIM@, "overlay"@, YELLOW@, spec_tidy(join_path(root@, "overlay"@) + "/"@, *st)),
    ]);
    r
}

/// The lines of the `rig` wordmark.
pub open spec fn banner_art() -> Seq<Seq<char>> {
    seq![
        "        _"@,
        "   ____(_)___ _"@,
        "  / __/ / __ `/"@,
        " / / / / /_/ /"@,
        "/_/ /_/\\__, /"@,
        "      /____/"@,
    ]
}

/// The colour of the `i`-th painted character of the wordmark.
pub open spec fn hue(i: nat) -> Seq<char> {
    if i % 4 == 0 {
        YELLOW@
    } else if i % 4 == 1 {
        GREEN@
    } else if i % 4 == 2 {
        CYAN@
    } else {
        MAGENTA@
    }
}

/// A line of the wordmark painted from colour index `i`: spaces stay plain,
/// every other character is bold in its colour.
pub open spec fn painted(s: Seq<char>, i: nat, on: bool) -> Seq<char>
    decreases s.len(),
{
    if s.len() == 0 {
        seq![]
    } else if s[0] == ' ' {
        seq![' '] + painted(s.drop_first(), i, on)
    } else {
        spec_wrap(on, BOLD@ + hue(i), seq![s[0]]) + painted(s.drop_first(), i + 1, on)
    }
}

/// How many characters of `s` are not spaces.
pub open spec fn non_spaces(s: Seq<char>) -> nat
    decreases s.len(),
{
    if s.len() == 0 {
        0
    } else {
        (if s[0] == ' ' {
            0nat
        } else {
            1nat
        }) + non_spaces(s.drop_first())
    }
}

proof fn lemma_non_spaces_le(s: Seq<char>)
    ensures
        non_spaces(s) <= s.len(),
    decreases s.len(),
{
    if s.len() > 0 {
        lemma_non_spaces_le(s.drop_first());
    }
}

fn hue_of(i: usize) -> (r: &'static str)
    ensures
        r@ == hue(i as nat),
{
    if i % 4 == 0 {
        YELLOW
    } else if i % 4 == 1 {
        GREEN
    } else if i % 4 == 2 {
        CYAN
    } else {
        MAGENTA
    }
}

fn banner_line(line: &str, i: usize, on: bool) -> (r: (String, usize))
    requires
        i + line@.len() <= usize::MAX,
    ensures
        r.0@ == "  "@ + painted(line@, i as nat, on),
        r.1 == i + non_spaces(line@),
        r.1 <= i + line@.len(),
{
    proof {
        lemma_non_spaces_le(line@);
    }
    let cs = chars_of(line);
    let mut out = owned("  ");
    assert(cs@.subrange(0, cs.len() as int) =~= cs@);
    let mut k = i;
    let mut j: usize = 0;
    while j < cs.len()
        invariant
            j <= cs.len(),
            cs@ == line@,
            i + cs@.len() <= usize::MAX,
            k <= i + j,
            out@ + painted(cs@.subrange(j as int, cs.len() as int), k as nat, on) == "  "@ + painted(line@, i as nat, on),
            k + non_spaces(cs@.subrange(j as int, cs.len() as int)) == i + non_spaces(line@),
        decreases cs.len() - j,
    {
        let ghost rest = cs@.subrange(j as int, cs.len() as int);
        assert(rest.drop_first() =~= cs@.subrange(j + 1, cs.len() as int));
        let ch = cs[j];
        if ch == ' ' {
            push_char(&mut out, ' ');
        } else {
            let mut one = String::new();
            push_char(&mut one, ch);
            let codes = [BOLD, hue_of(k)];
            let p = paint(on, &codes, one.as_str());
            proof {
                reveal_strlit("");
                assert(one@ =~= seq![ch]);
                assert(codes@.map_values(|c: &str| c@) =~= seq![BOLD@, hue(k as nat)]);
                lemma_join_codes(BOLD@, hue(k as nat));
            }
            push_str(&mut out, p.as_str());
            k = k + 1;
        }
        j = j + 1;
    }
    assert(cs@.subrange(cs.len() as int, cs.len() as int) =~= Seq::<char>::empty());
    assert(out@ + Seq::<char>::empty() =~= out@);
    (out, k)
}

/// The wordmark as printed.
pub open spec fn spec_banner(on: bool) -> Seq<char> {
    let a = banner_art();
    let i1 = non_spaces(a[0]);
    let i2 = i1 + non_spaces(a[1]);
    let i3 = i2 + non_spaces(a[2]);
    let i4 = i3 + non_spaces(a[3]);
    let i5 = i4 + non_spaces(a[4]);
    join_text(
        seq![
            "  "@ + painted(a[0], 0, on),
            "  "@ + painted(a[1], i1, on),
            "  "@ + painted(a[2], i2, on),
            "  "@ + painted(a[3], i3, on),
            "  "@ + painted(a[4], i4, on),
            "  "@ + painted(a[5], i5, on),
        ],
        "\n"@,
    )
}

/// The wordmark for `rig` / `rig -h`: two spaces before each line; each
/// character but spaces is bold in the next of yellow, green, cyan and
/// magenta, counting across the lines.
pub fn banner(on: bool) -> (r: String)
    ensures
        r@ == spec_banner(on),
{
    proof {
        reveal_strlit("        _");
        reveal_strlit("   ____(_)___ _");
        reveal_strlit("  / __/ / __ `/");
        reveal_strlit(" / / / / /_/ /");
        reveal_strlit("/_/ /_/\\__, /");
        reveal_strlit("      /____/");
    }
    let (l0, i1) = banner_line("        _", 0, on);
    let (l1, i2) = banner_line("   ____(_)___ _", i1, on);
    let (l2, i3) = banner_line("  / __/ / __ `/", i2, on);
    let (l3, i4) = banner_line(" / / / / /_/ /", i3, on);
    let (l4, i5) = banner_line("/_/ /_/\\__, /", i4, on);
    let (l5, _) = banner_line("      /____/", i5, on);
    let mut v: Vec<String> = Vec::new();
    v.push(l0);
    v.push(l1);
    v.push(l2);
    v.push(l3);
    v.push(l4);
    v.push(l5);
    let ghost a = banner_art();
    assert(views(v@) =~= seq![
        "  "@ + painted(a[0], 0, on),
        "  "@ + painted(a[1], non_spaces(a[0]), on),
        "  "@ + painted(a[2], non_spaces(a[0]) + non_spaces(a[1]), on),
        "  "@ + painted(a[3], non_spaces(a[0]) + non_spaces(a[1]) + non_spaces(a[2]), on),
        "  "@ + painted(a[4], non_spaces(a[0]) + non_spaces(a[1]) + non_spaces(a[2]) + non_spaces(a[3]), on),
        "  "@ + painted(a[5], non_spaces(a[0]) + non_spaces(a[1]) + non_spaces(a[2]) + non_spaces(a[3]) + non_spaces(a[4]), on),
    ]);
    join_strings(v.as_slice(), "\n")
}

} // verus!
