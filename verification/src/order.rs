//! Ordering of texts (the order of `String`'s `Ord`: lexicographic by code
//! point), sorting and removal of adjacent duplicates.
use vstd::prelude::*;
use vstd::multiset::Multiset;
use crate::text::{views, chars_of};

verus! {

broadcast use vstd::seq_lib::group_to_multiset_ensures;

/// `a <= b` in the order of `str`'s `Ord`.
pub open spec fn lex_le(a: Seq<char>, b: Seq<char>) -> bool
    decreases a.len(),
{
    if a.len() == 0 {
        true
    } else if b.len() == 0 {
        false
    } else if a[0] < b[0] {
        true
    } else if a[0] > b[0] {
        false
    } else {
        lex_le(a.drop_first(), b.drop_first())
    }
}

/// `a < b` in the order of `str`'s `Ord`.
pub open spec fn lex_lt(a: Seq<char>, b: Seq<char>) -> bool {
    lex_le(a, b) && a != b
}

/// Every earlier element is at most every later one.
pub open spec fn sorted_lex(s: Seq<Seq<char>>) -> bool {
    forall|i: int, j: int| 0 <= i < j < s.len() ==> lex_le(#[trigger] s[i], #[trigger] s[j])
}

/// Every earlier element is below every later one.
pub open spec fn strictly_sorted_lex(s: Seq<Seq<char>>) -> bool {
    forall|i: int, j: int| 0 <= i < j < s.len() ==> lex_lt(#[trigger] s[i], #[trigger] s[j])
}

pub proof fn lemma_lex_refl(a: Seq<char>)
    ensures
        lex_le(a, a),
    decreases a.len(),
{
    if a.len() > 0 {
        lemma_lex_refl(a.drop_first());
    }
}

pub proof fn lemma_lex_total(a: Seq<char>, b: Seq<char>)
    ensures
        lex_le(a, b) || lex_le(b, a),
    decreases a.len(),
{
    if a.len() > 0 && b.len() > 0 && a[0] == b[0] {
        lemma_lex_total(a.drop_first(), b.drop_first());
    }
}

pub proof fn lemma_lex_antisym(a: Seq<char>, b: Seq<char>)
    requires
        lex_le(a, b),
        lex_le(b, a),
    ensures
        a == b,
    decreases a.len(),
{
    if a.len() > 0 && b.len() > 0 {
        assert(a[0] == b[0]);
        lemma_lex_antisym(a.drop_first(), b.drop_first());
        assert(a =~= seq![a[0]] + a.drop_first());
        assert(b =~= seq![b[0]] + b.drop_first());
    }
}

pub proof fn lemma_lex_trans(a: Seq<char>, b: Seq<char>, c: Seq<char>)
    requires
        lex_le(a, b),
        lex_le(b, c),
    ensures
        lex_le(a, c),
    decreases a.len(),
{
    if a.len() > 0 && b.len() > 0 && c.len() > 0 {
        if a[0] == b[0] && b[0] == c[0] {
            lemma_lex_trans(a.drop_first(), b.drop_first(), c.drop_first());
        }
    }
}

/// Order of two texts (`<=`).
pub fn lex_le_exec(a: &[char], b: &[char]) -> (r: bool)
    ensures
        r == lex_le(a@, b@),
{
    let mut i: usize = 0;
    assert(a@.subrange(0, a.len() as int) =~= a@);
    assert(b@.subrange(0, b.len() as int) =~= b@);
    while i < a.len() && i < b.len() && a[i] == b[i]
        invariant
            i <= a.len(),
            i <= b.len(),
            lex_le(a@.subrange(i as int, a.len() as int), b@.subrange(i as int, b.len() as int))
                == lex_le(a@, b@),
        decreases a.len() - i,
    {
        let ghost sa = a@.subrange(i as int, a.len() as int);
        let ghost sb = b@.subrange(i as int, b.len() as int);
        assert(sa.drop_first() =~= a@.subrange(i + 1, a.len() as int));
        assert(sb.drop_first() =~= b@.subrange(i + 1, b.len() as int));
        i = i + 1;
    }
    let ghost sa = a@.subrange(i as int, a.len() as int);
    let ghost sb = b@.subrange(i as int, b.len() as int);
    if i == a.len() {
        true
    } else if i == b.len() {
        false
    } else {
        assert(sa[0] == a@[i as int] && sb[0] == b@[i as int]);
        a[i] < b[i]
    }
}

/// Order of two strings (`<=`).
pub fn string_le(a: &String, b: &String) -> (r: bool)
    ensures
        r == lex_le(a@, b@),
{
    let va = chars_of(a.as_str());
    let vb = chars_of(b.as_str());
    lex_le_exec(va.as_slice(), vb.as_slice())
}

/// Index of a least element of `v[from..]`.
fn min_index(v: &Vec<String>, from: usize) -> (m: usize)
    requires
        from < v.len(),
    ensures
        from <= m < v.len(),
        forall|k: int| from <= k < v.len() ==> lex_le(v@[m as int]@, #[trigger] v@[k]@),
{
    let mut m = from;
    let mut k = from + 1;
    proof {
        lemma_lex_refl(v@[m as int]@);
    }
    while k < v.len()
        invariant
            from <= m < k <= v.len(),
            forall|j: int| from <= j < k ==> lex_le(v@[m as int]@, #[trigger] v@[j]@),
        decreases v.len() - k,
    {
        if !string_le(&v[m], &v[k]) {
            proof {
                lemma_lex_total(v@[m as int]@, v@[k as int]@);
                assert forall|j: int| from <= j < k + 1 implies lex_le(
                    v@[k as int]@,
                    #[trigger] v@[j]@,
                ) by {
                    if j < k {
                        lemma_lex_trans(v@[k as int]@, v@[m as int]@, v@[j]@);
                    } else {
                        lemma_lex_refl(v@[k as int]@);
                    }
                }
            }
            m = k;
        }
        k = k + 1;
    }
    m
}

/// `v` sorted into the order of `String`'s `Ord`.
pub fn sort_strings(v: Vec<String>) -> (out: Vec<String>)
    ensures
        sorted_lex(views(out@)),
        views(out@).to_multiset() == views(v@).to_multiset(),
{
    let mut rest = v;
    let mut out: Vec<String> = Vec::new();
    let ghost orig = views(rest@);
    while rest.len() > 0
        invariant
            sorted_lex(views(out@)),
            forall|i: int, j: int|
                0 <= i < out.len() && 0 <= j < rest.len() ==> lex_le(
                    #[trigger] out@[i]@,
                    #[trigger] rest@[j]@,
                ),
            views(out@).to_multiset().add(views(rest@).to_multiset()) == orig.to_multiset(),
        decreases rest.len(),
    {
        let m = min_index(&rest, 0);
        let ghost old_rest = views(rest@);
        let ghost old_out = views(out@);
        let x = rest.remove(m);
        proof {
            assert(views(rest@) =~= old_rest.remove(m as int));
            assert(old_rest[m as int] == x@);
        }
        out.push(x);
        proof {
            assert(views(out@) =~= old_out.push(x@));
            assert(views(out@).to_multiset() =~= old_out.to_multiset().insert(x@));
            assert(views(rest@).to_multiset() =~= old_rest.to_multiset().remove(x@));
            assert(old_rest.to_multiset().count(x@) > 0) by {
                assert(old_rest.contains(x@));
            }
            assert(views(out@).to_multiset().add(views(rest@).to_multiset())
                =~= old_out.to_multiset().add(old_rest.to_multiset()));
            assert forall|i: int, j: int|
                0 <= i < out.len() && 0 <= j < rest.len() implies lex_le(
                #[trigger] out@[i]@,
                #[trigger] rest@[j]@,
            ) by {
                if j < m {
                    assert(rest@[j]@ == old_rest[j]);
                } else {
                    assert(rest@[j]@ == old_rest[j + 1]);
                }
            }
            assert forall|i: int, j: int| 0 <= i < j < views(out@).len() implies lex_le(
                #[trigger] views(out@)[i],
                #[trigger] views(out@)[j],
            ) by {
                if j == out.len() - 1 {
                } else {
                    assert(views(out@)[i] == old_out[i]);
                    assert(views(out@)[j] == old_out[j]);
                }
            }
        }
    }
    proof {
        assert(views(rest@).to_multiset() =~= Multiset::empty());
        assert(views(out@).to_multiset().add(Multiset::empty()) =~= views(out@).to_multiset());
    }
    out
}

/// `Vec::dedup` over texts: adjacent equal elements collapse into one.
pub open spec fn dedup_seq(s: Seq<Seq<char>>) -> Seq<Seq<char>>
    decreases s.len(),
{
    if s.len() == 0 {
        s
    } else {
        let d = dedup_seq(s.drop_last());
        if d.len() > 0 && d.last() == s.last() {
            d
        } else {
            d.push(s.last())
        }
    }
}

/// `Vec::dedup` for strings.
pub fn dedup_strings(v: Vec<String>) -> (out: Vec<String>)
    ensures
        views(out@) == dedup_seq(views(v@)),
{
    let mut out: Vec<String> = Vec::new();
    let mut i: usize = 0;
    while i < v.len()
        invariant
            i <= v.len(),
            views(out@) == dedup_seq(views(v@.subrange(0, i as int))),
        decreases v.len() - i,
    {
        let ghost pre = views(v@.subrange(0, i as int));
        let ghost cur = views(v@.subrange(0, i + 1));
        assert(cur.drop_last() =~= pre);
        assert(cur.last() == v@[i as int]@);
        let ghost old_out = views(out@);
        let n = out.len();
        if n > 0 && out[n - 1] == v[i] {
        } else {
            out.push(v[i].clone());
            assert(views(out@) =~= old_out.push(v@[i as int]@));
        }
        i = i + 1;
    }
    assert(v@.subrange(0, v.len() as int) =~= v@);
    out
}

pub proof fn lemma_dedup_contains(s: Seq<Seq<char>>)
    ensures
        forall|j: int| 0 <= j < dedup_seq(s).len() ==> s.contains(#[trigger] dedup_seq(s)[j]),
        forall|k: int| 0 <= k < s.len() ==> dedup_seq(s).contains(#[trigger] s[k]),
        dedup_seq(s).len() <= s.len(),
        s.len() > 0 ==> dedup_seq(s).len() > 0 && dedup_seq(s).last() == s.last(),
    decreases s.len(),
{
    if s.len() > 0 {
        let p = s.drop_last();
        lemma_dedup_contains(p);
        let d = dedup_seq(p);
        let e = dedup_seq(s);
        assert forall|j: int| 0 <= j < e.len() implies s.contains(#[trigger] e[j]) by {
            if j < d.len() {
                assert(e[j] == d[j]);
                assert(p.contains(d[j]));
                let k = choose|k: int| 0 <= k < p.len() && p[k] == d[j];
                assert(s[k] == p[k]);
            } else {
                assert(e[j] == s[s.len() - 1]);
            }
        }
        assert forall|k: int| 0 <= k < s.len() implies e.contains(#[trigger] s[k]) by {
            if k < s.len() - 1 {
                assert(s[k] == p[k]);
                assert(d.contains(p[k]));
                let j = choose|j: int| 0 <= j < d.len() && d[j] == p[k];
                assert(e[j] == d[j]);
            } else {
                assert(e[e.len() - 1] == s[k]);
            }
        }
    }
}

/// The same elements before and after removing adjacent duplicates.
pub proof fn lemma_dedup_same_elements(s: Seq<Seq<char>>)
    ensures
        forall|x: Seq<char>| #[trigger] dedup_seq(s).contains(x) <==> s.contains(x),
{
    lemma_dedup_contains(s);
    assert forall|x: Seq<char>| #[trigger] dedup_seq(s).contains(x) <==> s.contains(x) by {
        if dedup_seq(s).contains(x) {
            let j = choose|j: int| 0 <= j < dedup_seq(s).len() && dedup_seq(s)[j] == x;
            assert(s.contains(dedup_seq(s)[j]));
        }
        if s.contains(x) {
            let k = choose|k: int| 0 <= k < s.len() && s[k] == x;
            assert(dedup_seq(s).contains(s[k]));
        }
    }
}

/// Adjacent duplicates removed from a sorted sequence leave it strictly sorted.
pub proof fn lemma_dedup_sorted(s: Seq<Seq<char>>)
    requires
        sorted_lex(s),
    ensures
        strictly_sorted_lex(dedup_seq(s)),
    decreases s.len(),
{
    if s.len() > 0 {
        let p = s.drop_last();
        assert(sorted_lex(p)) by {
            assert forall|i: int, j: int| 0 <= i < j < p.len() implies lex_le(
                #[trigger] p[i],
                #[trigger] p[j],
            ) by {
                assert(p[i] == s[i] && p[j] == s[j]);
            }
        }
        lemma_dedup_sorted(p);
        lemma_dedup_contains(p);
        let d = dedup_seq(p);
        if !(d.len() > 0 && d.last() == s.last()) {
            let e = d.push(s.last());
            assert forall|i: int, j: int| 0 <= i < j < e.len() implies lex_lt(
                #[trigger] e[i],
                #[trigger] e[j],
            ) by {
                if j == e.len() - 1 {
                    assert(p.contains(d[i]));
                    let k = choose|k: int| 0 <= k < p.len() && p[k] == d[i];
                    assert(lex_le(s[k], s[s.len() - 1]));
                    assert(e[i] == p[k]);
                    if e[i] == e[j] {
                        // d[i] == s.last(); then the last of d, which is at
                        // least d[i], equals s.last() as well.
                        if i < d.len() - 1 {
                            assert(lex_lt(d[i], d[d.len() - 1]));
                            assert(p.contains(d[d.len() - 1]));
                            let k2 = choose|k2: int|
                                0 <= k2 < p.len() && p[k2] == d[d.len() - 1];
                            assert(lex_le(s[k2], s[s.len() - 1]));
                            lemma_lex_antisym(d[i], d[d.len() - 1]);
                        }
                    }
                } else {
                    assert(e[i] == d[i] && e[j] == d[j]);
                }
            }
        }
    }
}

/// Sorted with duplicates removed (`sort` then `dedup`).
pub fn sort_dedup_strings(v: Vec<String>) -> (out: Vec<String>)
    ensures
        strictly_sorted_lex(views(out@)),
        forall|x: Seq<char>| views(out@).contains(x) <==> views(v@).contains(x),
{
    let ghost orig = views(v@);
    let s = sort_strings(v);
    let out = dedup_strings(s);
    proof {
        lemma_dedup_sorted(views(s@));
        lemma_dedup_same_elements(views(s@));
        assert forall|x: Seq<char>| views(s@).contains(x) <==> orig.contains(x) by {
            assert(views(s@).to_multiset().count(x) == orig.to_multiset().count(x));
        }
    }
    out
}

} // verus!
