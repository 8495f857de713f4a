//! Character-level text handling: the model of `str` operations that the
//! configuration parsers and message builders rely on, stated over `Seq<char>`.
use vstd::prelude::*;

verus! {

// ---------------------------------------------------------------------------
// Character classes
// ---------------------------------------------------------------------------

/// Unicode `White_Space`, the set that `char::is_whitespace` tests.
pub open spec fn is_ws(c: char) -> bool {
    ||| c == '\t'
    ||| c == '\n'
    ||| c == '\u{0B}'
    ||| c == '\u{0C}'
    ||| c == '\r'
    ||| c == ' '
    ||| c == '\u{85}'
    ||| c == '\u{A0}'
    ||| c == '\u{1680}'
    ||| ('\u{2000}' <= c && c <= '\u{200A}')
    ||| c == '\u{2028}'
    ||| c == '\u{2029}'
    ||| c == '\u{202F}'
    ||| c == '\u{205F}'
    ||| c == '\u{3000}'
}

/// `char::is_whitespace`.
pub fn is_whitespace(c: char) -> (b: bool)
    ensures
        b == is_ws(c),
{
    c == '\t' || c == '\n' || c == '\u{0B}' || c == '\u{0C}' || c == '\r' || c == ' ' || c
        == '\u{85}' || c == '\u{A0}' || c == '\u{1680}' || ('\u{2000}' <= c && c <= '\u{200A}')
        || c == '\u{2028}' || c == '\u{2029}' || c == '\u{202F}' || c == '\u{205F}' || c
        == '\u{3000}'
}

/// Sets of characters that are trimmed from the ends of a piece of text.
#[derive(Clone, Copy, PartialEq, Eq, Structural, Debug)]
pub enum CharClass {
    /// Unicode white space.
    Whitespace,
    /// A double or a single quote.
    Quote,
    /// A line feed.
    Newline,
}

pub open spec fn in_class(cls: CharClass, c: char) -> bool {
    match cls {
        CharClass::Whitespace => is_ws(c),
        CharClass::Quote => c == '"' || c == '\'',
        CharClass::Newline => c == '\n',
    }
}

pub fn char_in_class(cls: CharClass, c: char) -> (b: bool)
    ensures
        b == in_class(cls, c),
{
    match cls {
        CharClass::Whitespace => is_whitespace(c),
        CharClass::Quote => c == '"' || c == '\'',
        CharClass::Newline => c == '\n',
    }
}

pub open spec fn is_upper_ascii(c: char) -> bool {
    'A' <= c && c <= 'Z'
}

/// `char::to_ascii_lowercase`.
pub open spec fn lower_char(c: char) -> char {
    if is_upper_ascii(c) {
        ((c as u32) + 32) as char
    } else {
        c
    }
}

/// `str::to_ascii_lowercase`.
pub open spec fn lower_ascii(s: Seq<char>) -> Seq<char> {
    s.map_values(|c: char| lower_char(c))
}

pub open spec fn is_ascii_alpha(c: char) -> bool {
    ('A' <= c && c <= 'Z') || ('a' <= c && c <= 'z')
}

pub open spec fn is_ascii_digit(c: char) -> bool {
    '0' <= c && c <= '9'
}

// ---------------------------------------------------------------------------
// Scanning specifications
// ---------------------------------------------------------------------------

/// First index at or after `i` whose character is outside `cls` (or the length).
pub open spec fn skip_fwd(s: Seq<char>, i: int, cls: CharClass) -> int
    decreases s.len() - i,
{
    if i >= s.len() {
        s.len() as int
    } else if i >= 0 && in_class(cls, s[i]) {
        skip_fwd(s, i + 1, cls)
    } else {
        i
    }
}

/// Largest end `<= j` whose preceding character is outside `cls` (or 0).
pub open spec fn skip_back(s: Seq<char>, j: int, cls: CharClass) -> int
    decreases j,
{
    if j <= 0 {
        0
    } else if j <= s.len() && in_class(cls, s[j - 1]) {
        skip_back(s, j - 1, cls)
    } else {
        j
    }
}

pub open spec fn trim_start_by(s: Seq<char>, cls: CharClass) -> Seq<char> {
    s.subrange(skip_fwd(s, 0, cls), s.len() as int)
}

pub open spec fn trim_end_by(s: Seq<char>, cls: CharClass) -> Seq<char> {
    s.subrange(0, skip_back(s, s.len() as int, cls))
}

/// `str::trim_matches` for the characters of `cls`.
pub open spec fn trim_by(s: Seq<char>, cls: CharClass) -> Seq<char> {
    trim_end_by(trim_start_by(s, cls), cls)
}

/// `str::trim`.
pub open spec fn trim(s: Seq<char>) -> Seq<char> {
    trim_by(s, CharClass::Whitespace)
}

/// `str::trim_start`.
pub open spec fn trim_start(s: Seq<char>) -> Seq<char> {
    trim_start_by(s, CharClass::Whitespace)
}

pub proof fn lemma_skip_fwd_bounds(s: Seq<char>, i: int, cls: CharClass)
    requires
        0 <= i <= s.len(),
    ensures
        i <= skip_fwd(s, i, cls) <= s.len(),
        skip_fwd(s, i, cls) < s.len() ==> !in_class(cls, s[skip_fwd(s, i, cls)]),
        forall|k: int| i <= k < skip_fwd(s, i, cls) ==> in_class(cls, #[trigger] s[k]),
    decreases s.len() - i,
{
    if i < s.len() && in_class(cls, s[i]) {
        lemma_skip_fwd_bounds(s, i + 1, cls);
    }
}

pub proof fn lemma_skip_back_bounds(s: Seq<char>, j: int, cls: CharClass)
    requires
        0 <= j <= s.len(),
    ensures
        0 <= skip_back(s, j, cls) <= j,
        skip_back(s, j, cls) > 0 ==> !in_class(cls, s[skip_back(s, j, cls) - 1]),
        forall|k: int| skip_back(s, j, cls) <= k < j ==> in_class(cls, #[trigger] s[k]),
    decreases j,
{
    if j > 0 && in_class(cls, s[j - 1]) {
        lemma_skip_back_bounds(s, j - 1, cls);
    }
}

/// First index at or after `i` holding `c` (or the length).
pub open spec fn next_char(s: Seq<char>, i: int, c: char) -> int
    decreases s.len() - i,
{
    if i >= s.len() {
        s.len() as int
    } else if i >= 0 && s[i] == c {
        i
    } else {
        next_char(s, i + 1, c)
    }
}

pub proof fn lemma_next_char_bounds(s: Seq<char>, i: int, c: char)
    requires
        0 <= i <= s.len(),
    ensures
        i <= next_char(s, i, c) <= s.len(),
        next_char(s, i, c) < s.len() ==> s[next_char(s, i, c)] == c,
        forall|k: int| i <= k < next_char(s, i, c) ==> #[trigger] s[k] != c,
    decreases s.len() - i,
{
    if i < s.len() && s[i] != c {
        lemma_next_char_bounds(s, i + 1, c);
    }
}

/// The text before the first `c`: `s.split(c).next()`.
pub open spec fn before_char(s: Seq<char>, c: char) -> Seq<char> {
    s.subrange(0, next_char(s, 0, c))
}

/// Removes one trailing carriage return.
pub open spec fn strip_cr(line: Seq<char>) -> Seq<char> {
    if line.len() > 0 && line.last() == '\r' {
        line.drop_last()
    } else {
        line
    }
}

/// `str::lines`, scanning from `i` with the current line started at `start`.
pub open spec fn lines_acc(s: Seq<char>, i: int, start: int) -> Seq<Seq<char>>
    decreases s.len() - i,
{
    if i >= s.len() {
        if start < s.len() {
            seq![s.subrange(start, s.len() as int)]
        } else {
            seq![]
        }
    } else if s[i] == '\n' {
        seq![strip_cr(s.subrange(start, i))] + lines_acc(s, i + 1, i + 1)
    } else {
        lines_acc(s, i + 1, start)
    }
}

/// `str::lines`: split at `\n`, one trailing `\r` dropped from each terminated
/// line, no empty last line after a final newline.
pub open spec fn lines(s: Seq<char>) -> Seq<Seq<char>> {
    lines_acc(s, 0, 0)
}

/// Whether a text ends in a carriage return.
pub open spec fn ends_cr(l: Seq<char>) -> bool {
    l.len() > 0 && l.last() == '\r'
}

/// Each text followed by a line feed, in order.
pub open spec fn terminated(ls: Seq<Seq<char>>) -> Seq<char>
    decreases ls.len(),
{
    if ls.len() == 0 {
        seq![]
    } else {
        ls[0] + "\n"@ + terminated(ls.drop_first())
    }
}

proof fn lemma_terminated_push(ls: Seq<Seq<char>>, x: Seq<char>)
    ensures
        terminated(ls.push(x)) == terminated(ls) + x + "\n"@,
    decreases ls.len(),
{
    reveal_strlit("\n");
    if ls.len() > 0 {
        assert(ls.push(x).drop_first() =~= ls.drop_first().push(x));
        lemma_terminated_push(ls.drop_first(), x);
        assert(terminated(ls.push(x)) =~= ls[0] + "\n"@ + (terminated(ls.drop_first()) + x + "\n"@));
    } else {
        let one = ls.push(x);
        assert(one.drop_first() =~= Seq::<Seq<char>>::empty());
        assert(terminated(one.drop_first()) =~= Seq::<char>::empty());
        assert(one[0] == x);
        assert(terminated(one) == one[0] + "\n"@ + terminated(one.drop_first()));
        assert(terminated(ls) =~= Seq::<char>::empty());
        assert(terminated(one) =~= terminated(ls) + x + "\n"@);
    }
}

/// Joining non-empty lines with line feeds and ending with one terminates each.
pub proof fn lemma_join_terminated(ls: Seq<Seq<char>>)
    requires
        ls.len() > 0,
    ensures
        join(ls, "\n"@) + "\n"@ == terminated(ls),
    decreases ls.len(),
{
    reveal_strlit("\n");
    if ls.len() == 1 {
        assert(ls.drop_first() =~= Seq::<Seq<char>>::empty());
        assert(terminated(ls.drop_first()) =~= Seq::<char>::empty());
        assert(terminated(ls) == ls[0] + "\n"@ + terminated(ls.drop_first()));
        assert(join(ls, "\n"@) == ls[0]);
        assert(terminated(ls) =~= join(ls, "\n"@) + "\n"@);
    } else {
        lemma_join_terminated(ls.drop_last());
        lemma_terminated_push(ls.drop_last(), ls.last());
        assert(ls.drop_last().push(ls.last()) =~= ls);
        assert(join(ls, "\n"@) + "\n"@ =~= join(ls.drop_last(), "\n"@) + "\n"@ + ls.last() + "\n"@);
    }
}

/// Scanning a line without line feeds up to the one that ends it.
proof fn lemma_lines_acc_line(s: Seq<char>, i: int, start: int, j: int)
    requires
        0 <= start <= i <= j < s.len(),
        s[j] == '\n',
        forall|k: int| i <= k < j ==> s[k] != '\n',
    ensures
        lines_acc(s, i, start) == seq![strip_cr(s.subrange(start, j))] + lines_acc(s, j + 1, j + 1),
    decreases j - i,
{
    if i < j {
        lemma_lines_acc_line(s, i + 1, start, j);
    }
}

/// Reading terminated lines back gives them, when none holds a line feed
/// or ends in a carriage return.
proof fn lemma_lines_terminated_from(p: Seq<char>, ls: Seq<Seq<char>>)
    requires
        forall|k: int| 0 <= k < ls.len() ==> !(#[trigger] ls[k]).contains('\n') && !ends_cr(ls[k]),
    ensures
        lines_acc(p + terminated(ls), p.len() as int, p.len() as int) == ls,
    decreases ls.len(),
{
    reveal_strlit("\n");
    let s = p + terminated(ls);
    if ls.len() == 0 {
        assert(s =~= p);
        assert(ls =~= Seq::<Seq<char>>::empty());
    } else {
        let a = ls[0];
        let rest = ls.drop_first();
        let p2 = p + a + "\n"@;
        assert(s =~= p2 + terminated(rest));
        let j: int = (p.len() + a.len()) as int;
        assert(s[j] == '\n');
        assert forall|k: int| p.len() <= k < j implies s[k] != '\n' by {
            assert(s[k] == a[k - p.len()]);
            if s[k] == '\n' {
                assert(a.contains('\n'));
            }
        }
        lemma_lines_acc_line(s, p.len() as int, p.len() as int, j);
        assert(s.subrange(p.len() as int, j) =~= a);
        assert forall|k: int| 0 <= k < rest.len() implies !(#[trigger] rest[k]).contains('\n') && !ends_cr(rest[k]) by {
            assert(rest[k] == ls[k + 1]);
        }
        lemma_lines_terminated_from(p2, rest);
        assert(p2.len() == j + 1);
        assert(ls =~= seq![a] + rest);
    }
}

/// `str::lines` of lines joined by line feeds, with a final one, gives them
/// back when none holds a line feed or ends in a carriage return.
pub proof fn lemma_lines_of_joined(ls: Seq<Seq<char>>)
    requires
        ls.len() > 0,
        forall|k: int| 0 <= k < ls.len() ==> !(#[trigger] ls[k]).contains('\n') && !ends_cr(ls[k]),
    ensures
        lines(join(ls, "\n"@) + "\n"@) == ls,
{
    lemma_join_terminated(ls);
    lemma_lines_terminated_from(Seq::<char>::empty(), ls);
    assert(Seq::<char>::empty() + terminated(ls) =~= terminated(ls));
}

proof fn lemma_lines_acc_no_nl(s: Seq<char>, i: int, start: int)
    requires
        0 <= start <= i <= s.len(),
        forall|k: int| start <= k < i ==> s[k] != '\n',
    ensures
        forall|m: int| 0 <= m < lines_acc(s, i, start).len() ==> !(#[trigger] lines_acc(s, i, start)[m]).contains('\n'),
    decreases s.len() - i,
{
    if i >= s.len() {
        if start < s.len() {
            let t = s.subrange(start, s.len() as int);
            assert forall|m: int| 0 <= m < lines_acc(s, i, start).len() implies !(#[trigger] lines_acc(s, i, start)[m]).contains('\n') by {
                assert(lines_acc(s, i, start)[m] == t);
                if t.contains('\n') {
                    let q = choose|q: int| 0 <= q < t.len() && t[q] == '\n';
                    assert(s[start + q] == '\n');
                }
            }
        } else {
            assert(lines_acc(s, i, start).len() == 0);
        }
    } else if s[i] == '\n' {
        lemma_lines_acc_no_nl(s, i + 1, i + 1);
        let t = strip_cr(s.subrange(start, i));
        let tail = lines_acc(s, i + 1, i + 1);
        assert forall|m: int| 0 <= m < lines_acc(s, i, start).len() implies !(#[trigger] lines_acc(s, i, start)[m]).contains('\n') by {
            if m == 0 {
                assert(lines_acc(s, i, start)[0] == t);
                if t.contains('\n') {
                    let q = choose|q: int| 0 <= q < t.len() && t[q] == '\n';
                    assert(s[start + q] == '\n');
                }
            } else {
                assert(lines_acc(s, i, start)[m] == tail[m - 1]);
            }
        }
    } else {
        lemma_lines_acc_no_nl(s, i + 1, start);
        assert(lines_acc(s, i, start) == lines_acc(s, i + 1, start));
    }
}

/// No line of `str::lines` holds a line feed.
pub proof fn lemma_lines_no_nl(s: Seq<char>)
    ensures
        forall|m: int| 0 <= m < lines(s).len() ==> !(#[trigger] lines(s)[m]).contains('\n'),
{
    lemma_lines_acc_no_nl(s, 0, 0);
}

/// `str::split` by one character, scanning from `i` with the piece started at `start`.
pub open spec fn split_acc(s: Seq<char>, c: char, i: int, start: int) -> Seq<Seq<char>>
    decreases s.len() - i,
{
    if i >= s.len() {
        seq![s.subrange(start, s.len() as int)]
    } else if s[i] == c {
        seq![s.subrange(start, i)] + split_acc(s, c, i + 1, i + 1)
    } else {
        split_acc(s, c, i + 1, start)
    }
}

/// `str::split(c)`: always at least one piece.
pub open spec fn split_char(s: Seq<char>, c: char) -> Seq<Seq<char>> {
    split_acc(s, c, 0, 0)
}

/// `str::split_whitespace`, scanning from `i`; `in_word` tells whether a word
/// started at `start` is open.
pub open spec fn words_acc(s: Seq<char>, i: int, in_word: bool, start: int) -> Seq<Seq<char>>
    decreases s.len() - i,
{
    if i >= s.len() {
        if in_word {
            seq![s.subrange(start, s.len() as int)]
        } else {
            seq![]
        }
    } else if is_ws(s[i]) {
        if in_word {
            seq![s.subrange(start, i)] + words_acc(s, i + 1, false, 0)
        } else {
            words_acc(s, i + 1, false, 0)
        }
    } else if in_word {
        words_acc(s, i + 1, true, start)
    } else {
        words_acc(s, i + 1, true, i)
    }
}

/// `str::split_whitespace`.
pub open spec fn words(s: Seq<char>) -> Seq<Seq<char>> {
    words_acc(s, 0, false, 0)
}

pub open spec fn starts_with(s: Seq<char>, p: Seq<char>) -> bool {
    p.len() <= s.len() && s.subrange(0, p.len() as int) == p
}

pub open spec fn ends_with(s: Seq<char>, p: Seq<char>) -> bool {
    p.len() <= s.len() && s.subrange(s.len() - p.len(), s.len() as int) == p
}

/// First index at or after `i` where `p` occurs in `s`, or -1.
pub open spec fn find_from(s: Seq<char>, p: Seq<char>, i: int) -> int
    decreases s.len() + 1 - i,
{
    if i < 0 || i + p.len() > s.len() {
        -1
    } else if s.subrange(i, i + p.len()) == p {
        i
    } else {
        find_from(s, p, i + 1)
    }
}

/// `str::find` (in characters).
pub open spec fn find(s: Seq<char>, p: Seq<char>) -> int {
    find_from(s, p, 0)
}

/// `str::contains` for a text pattern.
pub open spec fn contains_text(s: Seq<char>, p: Seq<char>) -> bool {
    find(s, p) >= 0
}

pub proof fn lemma_find_from(s: Seq<char>, p: Seq<char>, i: int)
    requires
        0 <= i,
    ensures
        find_from(s, p, i) == -1 || (i <= find_from(s, p, i) && find_from(s, p, i) + p.len()
            <= s.len() && s.subrange(find_from(s, p, i), find_from(s, p, i) + p.len()) == p),
        find_from(s, p, i) == -1 ==> forall|k: int|
            i <= k && k + p.len() <= s.len() ==> #[trigger] s.subrange(k, k + p.len()) != p,
        find_from(s, p, i) >= 0 ==> forall|k: int|
            i <= k < find_from(s, p, i) ==> #[trigger] s.subrange(k, k + p.len()) != p,
    decreases s.len() + 1 - i,
{
    if i + p.len() <= s.len() && s.subrange(i, i + p.len()) != p {
        lemma_find_from(s, p, i + 1);
    }
}

/// A pattern whose first character occurs nowhere else in it: no occurrence
/// of it can begin inside another one.
pub open spec fn head_unique(p: Seq<char>) -> bool {
    p.len() > 0 && forall|k: int| 0 < k < p.len() ==> #[trigger] p[k] != p[0]
}

proof fn lemma_find_first_from(s: Seq<char>, p: Seq<char>, k0: int, i: int)
    requires
        0 <= i <= k0,
        k0 + p.len() <= s.len(),
        s.subrange(k0, k0 + p.len()) == p,
        forall|k: int| 0 <= k < k0 ==> #[trigger] s.subrange(k, k + p.len()) != p,
    ensures
        find_from(s, p, i) == k0,
    decreases k0 - i,
{
    if i < k0 {
        assert(s.subrange(i, i + p.len()) != p);
        lemma_find_first_from(s, p, k0, i + 1);
    }
}

/// `p` is first found at `k0` when it occurs there and at no earlier index.
pub proof fn lemma_find_first(s: Seq<char>, p: Seq<char>, k0: int)
    requires
        0 <= k0,
        k0 + p.len() <= s.len(),
        s.subrange(k0, k0 + p.len()) == p,
        forall|k: int| 0 <= k < k0 ==> #[trigger] s.subrange(k, k + p.len()) != p,
    ensures
        find(s, p) == k0,
{
    lemma_find_first_from(s, p, k0, 0);
}

/// A prefix of `e` that ends before the first occurrence of `p` holds no `p`.
pub proof fn lemma_find_in_prefix(e: Seq<char>, p: Seq<char>, n: int)
    requires
        0 <= n <= e.len(),
        p.len() > 0,
        find(e, p) < 0 || find(e, p) >= n,
    ensures
        find(e.subrange(0, n), p) < 0,
{
    lemma_find_from(e, p, 0);
    let a = e.subrange(0, n);
    lemma_find_from(a, p, 0);
    if find(a, p) >= 0 {
        let k = find(a, p);
        assert(e.subrange(k, k + p.len()) =~= a.subrange(k, k + p.len()));
    }
}

/// In `a + b`, where `a` holds no `p` and `b` starts with the first character
/// of a head-unique `p`, no occurrence of `p` starts inside `a`.
pub proof fn lemma_none_in_head(a: Seq<char>, b: Seq<char>, p: Seq<char>, k: int)
    requires
        head_unique(p),
        find(a, p) < 0,
        b.len() > 0,
        b[0] == p[0],
        0 <= k < a.len(),
        k + p.len() <= a.len() + b.len(),
    ensures
        (a + b).subrange(k, k + p.len()) != p,
{
    lemma_find_from(a, p, 0);
    if k + p.len() <= a.len() {
        assert((a + b).subrange(k, k + p.len()) =~= a.subrange(k, k + p.len()));
    } else {
        let m = a.len() - k;
        assert((a + b).subrange(k, k + p.len())[m] == b[0]);
        assert(p[m] != p[0]);
    }
}

/// Decimal digits of `n`, as `u64`'s `Display` writes them.
pub open spec fn decimal(n: nat) -> Seq<char>
    decreases n,
{
    if n < 10 {
        seq![digit_char(n)]
    } else {
        decimal(n / 10).push(digit_char(n % 10))
    }
}

pub open spec fn digit_char(d: nat) -> char {
    if d == 0 {
        '0'
    } else if d == 1 {
        '1'
    } else if d == 2 {
        '2'
    } else if d == 3 {
        '3'
    } else if d == 4 {
        '4'
    } else if d == 5 {
        '5'
    } else if d == 6 {
        '6'
    } else if d == 7 {
        '7'
    } else if d == 8 {
        '8'
    } else {
        '9'
    }
}

/// `n` spaces.
pub open spec fn spaces(n: nat) -> Seq<char> {
    Seq::new(n, |_i: int| ' ')
}

/// `format!("{s:<width$}")`: left-aligned, padded with spaces to `width` characters.
pub open spec fn pad_right(s: Seq<char>, width: nat) -> Seq<char> {
    if s.len() >= width {
        s
    } else {
        s + spaces((width - s.len()) as nat)
    }
}

/// `[T]::join(sep)` over texts.
pub open spec fn join(parts: Seq<Seq<char>>, sep: Seq<char>) -> Seq<char>
    decreases parts.len(),
{
    if parts.len() == 0 {
        seq![]
    } else if parts.len() == 1 {
        parts[0]
    } else {
        join(parts.drop_last(), sep) + sep + parts.last()
    }
}

/// The views of a sequence of strings.
pub open spec fn views(v: Seq<String>) -> Seq<Seq<char>> {
    v.map_values(|s: String| s@)
}

// ---------------------------------------------------------------------------
// Building and reading strings
// ---------------------------------------------------------------------------

/// The characters of `s`, in order.
pub fn chars_of(s: &str) -> (out: Vec<char>)
    ensures
        out@ == s@,
{
    let mut out: Vec<char> = Vec::new();
    for c in it: s.chars()
        invariant
            out@ == it.seq().subrange(0, it.index() as int),
            it.seq() == s@,
    {
        out.push(c);
    }
    out
}

/// Appends one character (`String::push`).
#[verifier::external_body]
pub fn push_char(s: &mut String, c: char)
    ensures
        final(s)@ == old(s)@.push(c),
{
    s.push(c);
}

/// Appends a text (`String::push_str`).
pub fn push_str(s: &mut String, t: &str)
    ensures
        final(s)@ == old(s)@ + t@,
{
    s.append(t);
}

/// A new string holding the characters of `v`.
pub fn string_of(v: &[char]) -> (out: String)
    ensures
        out@ == v@,
{
    let mut out = String::new();
    let mut i: usize = 0;
    while i < v.len()
        invariant
            i <= v.len(),
            out@ == v@.subrange(0, i as int),
        decreases v.len() - i,
    {
        push_char(&mut out, v[i]);
        i = i + 1;
        assert(out@ =~= v@.subrange(0, i as int));
    }
    assert(out@ =~= v@);
    out
}

/// An owned copy of `s`.
pub fn owned(s: &str) -> (out: String)
    ensures
        out@ == s@,
{
    s.to_owned()
}

/// `a` followed by `b`.
pub fn concat2(a: &str, b: &str) -> (out: String)
    ensures
        out@ == a@ + b@,
{
    let mut out = owned(a);
    push_str(&mut out, b);
    out
}

/// `a`, `b` and `c` in a row.
pub fn concat3(a: &str, b: &str, c: &str) -> (out: String)
    ensures
        out@ == a@ + b@ + c@,
{
    let mut out = concat2(a, b);
    push_str(&mut out, c);
    out
}

/// `v[i..j]` as a new vector.
pub fn copy_range(v: &[char], i: usize, j: usize) -> (out: Vec<char>)
    requires
        i <= j <= v.len(),
    ensures
        out@ == v@.subrange(i as int, j as int),
{
    let mut out: Vec<char> = Vec::new();
    let mut k = i;
    while k < j
        invariant
            i <= k <= j <= v.len(),
            out@ == v@.subrange(i as int, k as int),
        decreases j - k,
    {
        out.push(v[k]);
        k = k + 1;
        assert(out@ =~= v@.subrange(i as int, k as int));
    }
    out
}

/// Equality of two character slices.
pub fn chars_eq(a: &[char], b: &[char]) -> (r: bool)
    ensures
        r == (a@ == b@),
{
    if a.len() != b.len() {
        return false;
    }
    let mut i: usize = 0;
    while i < a.len()
        invariant
            a.len() == b.len(),
            i <= a.len(),
            forall|k: int| 0 <= k < i ==> a@[k] == b@[k],
        decreases a.len() - i,
    {
        if a[i] != b[i] {
            return false;
        }
        i = i + 1;
    }
    assert(a@ =~= b@);
    true
}

/// Equality of two texts.
pub fn str_eq(a: &str, b: &str) -> (r: bool)
    ensures
        r == (a@ == b@),
{
    let va = chars_of(a);
    let vb = chars_of(b);
    chars_eq(va.as_slice(), vb.as_slice())
}

// ---------------------------------------------------------------------------
// Trimming
// ---------------------------------------------------------------------------

/// Index of the first character at or after `i` outside `cls`.
pub fn skip_fwd_exec(s: &[char], i: usize, cls: CharClass) -> (k: usize)
    requires
        i <= s.len(),
    ensures
        k == skip_fwd(s@, i as int, cls),
        i <= k <= s.len(),
{
    let mut k = i;
    while k < s.len() && char_in_class(cls, s[k])
        invariant
            i <= k <= s.len(),
            skip_fwd(s@, k as int, cls) == skip_fwd(s@, i as int, cls),
        decreases s.len() - k,
    {
        k = k + 1;
    }
    k
}

/// End of `s[..j]` once characters of `cls` are dropped from its end.
pub fn skip_back_exec(s: &[char], j: usize, cls: CharClass) -> (k: usize)
    requires
        j <= s.len(),
    ensures
        k == skip_back(s@, j as int, cls),
        k <= j,
{
    let mut k = j;
    while k > 0 && char_in_class(cls, s[k - 1])
        invariant
            k <= j <= s.len(),
            skip_back(s@, k as int, cls) == skip_back(s@, j as int, cls),
        decreases k,
    {
        k = k - 1;
    }
    k
}

/// `str::trim_matches` for `cls`.
pub fn trim_chars_by(s: &[char], cls: CharClass) -> (out: Vec<char>)
    ensures
        out@ == trim_by(s@, cls),
{
    let a = skip_fwd_exec(s, 0, cls);
    let t = copy_range(s, a, s.len());
    let b = skip_back_exec(t.as_slice(), t.len(), cls);
    copy_range(t.as_slice(), 0, b)
}

/// `str::trim`.
pub fn trim_chars(s: &[char]) -> (out: Vec<char>)
    ensures
        out@ == trim(s@),
{
    trim_chars_by(s, CharClass::Whitespace)
}

/// `str::trim_start`.
pub fn trim_start_chars(s: &[char]) -> (out: Vec<char>)
    ensures
        out@ == trim_start(s@),
{
    let a = skip_fwd_exec(s, 0, CharClass::Whitespace);
    copy_range(s, a, s.len())
}

/// `str::trim` into a new string.
pub fn trim_str(s: &str) -> (out: String)
    ensures
        out@ == trim(s@),
{
    let v = chars_of(s);
    let t = trim_chars(v.as_slice());
    string_of(t.as_slice())
}

// ---------------------------------------------------------------------------
// Prefixes, suffixes, search
// ---------------------------------------------------------------------------

pub fn starts_with_chars(s: &[char], p: &[char]) -> (r: bool)
    ensures
        r == starts_with(s@, p@),
{
    if p.len() > s.len() {
        return false;
    }
    let mut i: usize = 0;
    while i < p.len()
        invariant
            p.len() <= s.len(),
            i <= p.len(),
            forall|k: int| 0 <= k < i ==> s@[k] == p@[k],
        decreases p.len() - i,
    {
        if s[i] != p[i] {
            assert(s@.subrange(0, p.len() as int)[i as int] != p@[i as int]);
            return false;
        }
        i = i + 1;
    }
    assert(s@.subrange(0, p.len() as int) =~= p@);
    true
}

pub fn ends_with_chars(s: &[char], p: &[char]) -> (r: bool)
    ensures
        r == ends_with(s@, p@),
{
    if p.len() > s.len() {
        return false;
    }
    let off = s.len() - p.len();
    let mut i: usize = 0;
    while i < p.len()
        invariant
            p.len() <= s.len(),
            off == s.len() - p.len(),
            i <= p.len(),
            forall|k: int| 0 <= k < i ==> s@[off + k] == p@[k],
        decreases p.len() - i,
    {
        if s[off + i] != p[i] {
            assert(s@.subrange(off as int, s.len() as int)[i as int] != p@[i as int]);
            return false;
        }
        i = i + 1;
    }
    assert(s@.subrange(off as int, s.len() as int) =~= p@);
    true
}

/// Whether `p` occurs at index `i` of `s`.
pub fn occurs_at(s: &[char], p: &[char], i: usize) -> (r: bool)
    requires
        i + p.len() <= s.len(),
    ensures
        r == (s@.subrange(i as int, i + p.len()) == p@),
{
    let mut k: usize = 0;
    while k < p.len()
        invariant
            i + p.len() <= s.len(),
            k <= p.len(),
            forall|m: int| 0 <= m < k ==> s@[i + m] == p@[m],
        decreases p.len() - k,
    {
        if s[i + k] != p[k] {
            assert(s@.subrange(i as int, i + p.len())[k as int] != p@[k as int]);
            return false;
        }
        k = k + 1;
    }
    assert(s@.subrange(i as int, i + p.len()) =~= p@);
    true
}

/// `str::find` in characters; `None` when `p` does not occur.
pub fn find_chars(s: &[char], p: &[char]) -> (r: Option<usize>)
    ensures
        match r {
            Some(i) => find(s@, p@) == i as int,
            None => find(s@, p@) == -1,
        },
{
    if p.len() > s.len() {
        return None;
    }
    let last = s.len() - p.len();
    let mut i: usize = 0;
    while i <= last
        invariant
            p.len() <= s.len(),
            last == s.len() - p.len(),
            i <= last + 1,
            find_from(s@, p@, i as int) == find(s@, p@),
        decreases last + 1 - i,
    {
        if occurs_at(s, p, i) {
            return Some(i);
        }
        if i == last {
            assert(find_from(s@, p@, i + 1) == -1);
            return None;
        }
        i = i + 1;
    }
    None
}

/// `str::contains` for a text pattern.
pub fn contains_chars(s: &[char], p: &[char]) -> (r: bool)
    ensures
        r == contains_text(s@, p@),
{
    match find_chars(s, p) {
        Some(_) => true,
        None => false,
    }
}

/// Whether `c` occurs in `s`.
pub fn has_char(s: &[char], c: char) -> (r: bool)
    ensures
        r == s@.contains(c),
{
    let mut i: usize = 0;
    while i < s.len()
        invariant
            i <= s.len(),
            forall|k: int| 0 <= k < i ==> s@[k] != c,
        decreases s.len() - i,
    {
        if s[i] == c {
            assert(s@[i as int] == c);
            return true;
        }
        i = i + 1;
    }
    false
}

/// Index of the first `c` at or after `i` (or the length).
pub fn next_char_exec(s: &[char], i: usize, c: char) -> (k: usize)
    requires
        i <= s.len(),
    ensures
        k == next_char(s@, i as int, c),
        i <= k <= s.len(),
{
    let mut k = i;
    while k < s.len() && s[k] != c
        invariant
            i <= k <= s.len(),
            next_char(s@, k as int, c) == next_char(s@, i as int, c),
        decreases s.len() - k,
    {
        k = k + 1;
    }
    k
}

/// `s.split(c).next()`: the text before the first `c`.
pub fn before_char_chars(s: &[char], c: char) -> (out: Vec<char>)
    ensures
        out@ == before_char(s@, c),
{
    let k = next_char_exec(s, 0, c);
    copy_range(s, 0, k)
}

// ---------------------------------------------------------------------------
// Case
// ---------------------------------------------------------------------------

pub fn lower_char_exec(c: char) -> (r: char)
    ensures
        r == lower_char(c),
{
    if 'A' <= c && c <= 'Z' {
        let b = c as u8;
        assert(b == c as u32);
        ((b + 32) as u8) as char
    } else {
        c
    }
}

/// `str::to_ascii_lowercase`.
pub fn lower_ascii_chars(s: &[char]) -> (out: Vec<char>)
    ensures
        out@ == lower_ascii(s@),
{
    let mut out: Vec<char> = Vec::new();
    let mut i: usize = 0;
    while i < s.len()
        invariant
            i <= s.len(),
            out@ == lower_ascii(s@.subrange(0, i as int)),
        decreases s.len() - i,
    {
        out.push(lower_char_exec(s[i]));
        i = i + 1;
        assert(out@ =~= lower_ascii(s@.subrange(0, i as int)));
    }
    assert(s@.subrange(0, s.len() as int) =~= s@);
    out
}

/// `str::to_ascii_lowercase` into a new string.
pub fn lower_ascii_str(s: &str) -> (out: String)
    ensures
        out@ == lower_ascii(s@),
{
    let v = chars_of(s);
    let l = lower_ascii_chars(v.as_slice());
    string_of(l.as_slice())
}

// ---------------------------------------------------------------------------
// Splitting
// ---------------------------------------------------------------------------

/// `str::lines`.
pub fn lines_of(s: &[char]) -> (out: Vec<Vec<char>>)
    ensures
        out@.map_values(|l: Vec<char>| l@) == lines(s@),
{
    let mut out: Vec<Vec<char>> = Vec::new();
    let mut i: usize = 0;
    let mut start: usize = 0;
    while i < s.len()
        invariant
            start <= i <= s.len(),
            out@.map_values(|l: Vec<char>| l@) + lines_acc(s@, i as int, start as int) == lines(
                s@,
            ),
        decreases s.len() - i,
    {
        let ghost before = out@.map_values(|l: Vec<char>| l@);
        if s[i] == '\n' {
            let mut line = copy_range(s, start, i);
            if line.len() > 0 && line[line.len() - 1] == '\r' {
                line.pop();
            }
            assert(line@ == strip_cr(s@.subrange(start as int, i as int)));
            out.push(line);
            assert(out@.map_values(|l: Vec<char>| l@) =~= before.push(
                strip_cr(s@.subrange(start as int, i as int)),
            ));
            i = i + 1;
            start = i;
        } else {
            i = i + 1;
        }
    }
    let ghost before = out@.map_values(|l: Vec<char>| l@);
    if start < s.len() {
        out.push(copy_range(s, start, s.len()));
        assert(out@.map_values(|l: Vec<char>| l@) =~= before.push(
            s@.subrange(start as int, s.len() as int),
        ));
    } else {
        assert(out@.map_values(|l: Vec<char>| l@) =~= before + lines_acc(
            s@,
            i as int,
            start as int,
        ));
    }
    out
}

/// `str::split(c)`.
pub fn split_chars(s: &[char], c: char) -> (out: Vec<Vec<char>>)
    ensures
        out@.map_values(|l: Vec<char>| l@) == split_char(s@, c),
        out@.len() >= 1,
{
    let mut out: Vec<Vec<char>> = Vec::new();
    let mut i: usize = 0;
    let mut start: usize = 0;
    while i < s.len()
        invariant
            start <= i <= s.len(),
            out@.map_values(|l: Vec<char>| l@) + split_acc(s@, c, i as int, start as int)
                == split_char(s@, c),
        decreases s.len() - i,
    {
        let ghost before = out@.map_values(|l: Vec<char>| l@);
        if s[i] == c {
            out.push(copy_range(s, start, i));
            assert(out@.map_values(|l: Vec<char>| l@) =~= before.push(
                s@.subrange(start as int, i as int),
            ));
            i = i + 1;
            start = i;
        } else {
            i = i + 1;
        }
    }
    let ghost before = out@.map_values(|l: Vec<char>| l@);
    out.push(copy_range(s, start, s.len()));
    assert(out@.map_values(|l: Vec<char>| l@) =~= before.push(
        s@.subrange(start as int, s.len() as int),
    ));
    out
}

/// `str::split_whitespace`.
pub fn words_of(s: &[char]) -> (out: Vec<Vec<char>>)
    ensures
        out@.map_values(|l: Vec<char>| l@) == words(s@),
{
    let mut out: Vec<Vec<char>> = Vec::new();
    let mut i: usize = 0;
    let mut in_word = false;
    let mut start: usize = 0;
    while i < s.len()
        invariant
            i <= s.len(),
            in_word ==> start <= i,
            out@.map_values(|l: Vec<char>| l@) + words_acc(
                s@,
                i as int,
                in_word,
                if in_word {
                    start as int
                } else {
                    0
                },
            ) == words(s@),
        decreases s.len() - i,
    {
        let ghost before = out@.map_values(|l: Vec<char>| l@);
        if is_whitespace(s[i]) {
            if in_word {
                out.push(copy_range(s, start, i));
                assert(out@.map_values(|l: Vec<char>| l@) =~= before.push(
                    s@.subrange(start as int, i as int),
                ));
            }
            in_word = false;
            start = 0;
        } else if !in_word {
            in_word = true;
            start = i;
        }
        i = i + 1;
    }
    let ghost before = out@.map_values(|l: Vec<char>| l@);
    if in_word {
        out.push(copy_range(s, start, s.len()));
        assert(out@.map_values(|l: Vec<char>| l@) =~= before.push(
            s@.subrange(start as int, s.len() as int),
        ));
    } else {
        assert(out@.map_values(|l: Vec<char>| l@) =~= before);
    }
    out
}

// ---------------------------------------------------------------------------
// Numbers, padding, joining
// ---------------------------------------------------------------------------

pub fn digit_exec(d: u64) -> (c: char)
    requires
        d < 10,
    ensures
        c == digit_char(d as nat),
{
    if d == 0 {
        '0'
    } else if d == 1 {
        '1'
    } else if d == 2 {
        '2'
    } else if d == 3 {
        '3'
    } else if d == 4 {
        '4'
    } else if d == 5 {
        '5'
    } else if d == 6 {
        '6'
    } else if d == 7 {
        '7'
    } else if d == 8 {
        '8'
    } else {
        '9'
    }
}

/// Decimal text of `n` (`u64`'s `Display`).
pub fn decimal_string(n: u64) -> (out: String)
    ensures
        out@ == decimal(n as nat),
    decreases n,
{
    if n < 10 {
        let mut out = String::new();
        push_char(&mut out, digit_exec(n));
        assert(out@ =~= decimal(n as nat));
        out
    } else {
        let mut out = decimal_string(n / 10);
        push_char(&mut out, digit_exec(n % 10));
        out
    }
}

/// `format!("{s:<width$}")`.
pub fn pad_right_str(s: &str, width: usize) -> (out: String)
    ensures
        out@ == pad_right(s@, width as nat),
{
    let v = chars_of(s);
    let mut out = owned(s);
    if v.len() >= width {
        return out;
    }
    let mut k = v.len();
    while k < width
        invariant
            v@ == s@,
            v.len() <= k <= width,
            out@ == s@ + spaces((k - v.len()) as nat),
        decreases width - k,
    {
        push_char(&mut out, ' ');
        k = k + 1;
        assert(out@ =~= s@ + spaces((k - v.len()) as nat));
    }
    out
}

/// `parts.join(sep)`.
pub fn join_strings(parts: &[String], sep: &str) -> (out: String)
    ensures
        out@ == join(views(parts@), sep@),
{
    let mut out = String::new();
    let mut i: usize = 0;
    while i < parts.len()
        invariant
            i <= parts.len(),
            out@ == join(views(parts@.subrange(0, i as int)), sep@),
        decreases parts.len() - i,
    {
        let ghost prev = parts@.subrange(0, i as int);
        let ghost next = parts@.subrange(0, i + 1);
        assert(views(next).drop_last() =~= views(prev));
        assert(views(next).last() == parts@[i as int]@);
        if i > 0 {
            push_str(&mut out, sep);
        } else {
            assert(views(prev) =~= Seq::<Seq<char>>::empty());
            assert(out@ =~= Seq::<char>::empty());
        }
        push_str(&mut out, parts[i].as_str());
        i = i + 1;
        if i == 1 {
            assert(out@ =~= join(views(parts@.subrange(0, i as int)), sep@));
        }
    }
    assert(parts@.subrange(0, parts.len() as int) =~= parts@);
    out
}

/// Appends the lines `more` to `r`.
pub fn append_lines(r: &mut Vec<String>, more: Vec<String>)
    ensures
        views(final(r)@) == views(old(r)@) + views(more@),
{
    let mut m = more;
    let ghost a = views(r@);
    let ghost b = views(m@);
    r.append(&mut m);
    assert(views(r@) =~= a + b);
}

} // verus!
