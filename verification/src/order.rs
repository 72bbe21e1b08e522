//! Lexicographic order on strings (by code point, which is also the order of
//! their UTF-8 bytes) and sorting by it.

use vstd::prelude::*;
use crate::text::{chars_of, string_views};

verus! {

broadcast use vstd::seq_lib::group_to_multiset_ensures;

/// `a <= b` in lexicographic order of code points.
pub open spec fn lex_le(a: Seq<char>, b: Seq<char>) -> bool
    decreases a.len(),
{
    if a.len() == 0 {
        true
    } else if b.len() == 0 {
        false
    } else if (a[0] as u32) != (b[0] as u32) {
        (a[0] as u32) < (b[0] as u32)
    } else {
        lex_le(a.drop_first(), b.drop_first())
    }
}

/// Any two strings are ordered one way or the other.
pub proof fn lemma_lex_total(a: Seq<char>, b: Seq<char>)
    ensures
        lex_le(a, b) || lex_le(b, a),
    decreases a.len(),
{
    if a.len() > 0 && b.len() > 0 && (a[0] as u32) == (b[0] as u32) {
        lemma_lex_total(a.drop_first(), b.drop_first());
    }
}

/// The order is transitive.
pub proof fn lemma_lex_transitive(a: Seq<char>, b: Seq<char>, c: Seq<char>)
    requires
        lex_le(a, b),
        lex_le(b, c),
    ensures
        lex_le(a, c),
    decreases a.len(),
{
    if a.len() > 0 && b.len() > 0 && c.len() > 0 && (a[0] as u32) == (b[0] as u32) && (b[0] as u32)
        == (c[0] as u32) {
        lemma_lex_transitive(a.drop_first(), b.drop_first(), c.drop_first());
    }
}

/// Whether `a <= b` in lexicographic order.
pub fn str_le(a: &str, b: &str) -> (r: bool)
    ensures
        r == lex_le(a@, b@),
{
    let x = chars_of(a);
    let y = chars_of(b);
    let mut i: usize = 0;
    assert(a@.subrange(0, a@.len() as int) =~= a@);
    assert(b@.subrange(0, b@.len() as int) =~= b@);
    while i < x.len() && i < y.len()
        invariant
            x@ == a@,
            y@ == b@,
            i <= x.len(),
            i <= y.len(),
            lex_le(a@, b@) == lex_le(
                a@.subrange(i as int, a@.len() as int),
                b@.subrange(i as int, b@.len() as int),
            ),
        decreases x.len() - i,
    {
        let ghost s = a@.subrange(i as int, a@.len() as int);
        let ghost t = b@.subrange(i as int, b@.len() as int);
        assert(s[0] == x@[i as int] && t[0] == y@[i as int]);
        if (x[i] as u32) != (y[i] as u32) {
            return (x[i] as u32) < (y[i] as u32);
        }
        assert(s.drop_first() =~= a@.subrange(i + 1, a@.len() as int));
        assert(t.drop_first() =~= b@.subrange(i + 1, b@.len() as int));
        i = i + 1;
    }
    x.len() <= y.len()
}

/// Strings in non-decreasing lexicographic order.
pub open spec fn lex_sorted(s: Seq<Seq<char>>) -> bool {
    forall|i: int, j: int| 0 <= i < j < s.len() ==> lex_le(#[trigger] s[i], #[trigger] s[j])
}

/// The strings of `v` in lexicographic order (a stable insertion sort).
pub fn sort_strings(v: &Vec<String>) -> (r: Vec<String>)
    ensures
        r@.to_multiset() == v@.to_multiset(),
        lex_sorted(string_views(r@)),
{
    let mut out: Vec<String> = Vec::new();
    let mut k: usize = 0;
    assert(v@.subrange(0, 0) =~= Seq::<String>::empty());
    while k < v.len()
        invariant
            k <= v.len(),
            out@.to_multiset() == v@.subrange(0, k as int).to_multiset(),
            lex_sorted(string_views(out@)),
        decreases v.len() - k,
    {
        let x = v[k].clone();
        let mut j: usize = 0;
        let mut done = false;
        while j < out.len() && !done
            invariant
                j <= out.len(),
                lex_sorted(string_views(out@)),
                forall|i: int| 0 <= i < j ==> lex_le(#[trigger] out@[i]@, x@),
                done ==> j < out.len() && !lex_le(out@[j as int]@, x@),
            decreases out.len() - j + (if done { 0int } else { 1int }),
        {
            if str_le(out[j].as_str(), x.as_str()) {
                j = j + 1;
            } else {
                done = true;
            }
        }
        let ghost before = out@;
        assert forall|i: int| j <= i < before.len() implies lex_le(x@, #[trigger] before[i]@) by {
            lemma_lex_total(before[j as int]@, x@);
            if i > j {
                assert(lex_le(string_views(before)[j as int], string_views(before)[i]));
                lemma_lex_transitive(x@, before[j as int]@, before[i]@);
            }
        }
        out.insert(j, x);
        assert(out@ == before.insert(j as int, v@[k as int]));
        assert forall|a: int, b: int| 0 <= a < b < out@.len() implies lex_le(
            #[trigger] string_views(out@)[a],
            #[trigger] string_views(out@)[b],
        ) by {
            if b < j {
                assert(string_views(before)[a] == out@[a]@);
                assert(string_views(before)[b] == out@[b]@);
            } else if b == j {
                assert(out@[a] == before[a]);
            } else if a < j {
                assert(out@[a] == before[a]);
                assert(out@[b] == before[b - 1]);
                lemma_lex_transitive(before[a]@, x@, before[b - 1]@);
            } else if a == j {
                assert(out@[b] == before[b - 1]);
            } else {
                assert(out@[a] == before[a - 1]);
                assert(out@[b] == before[b - 1]);
                assert(lex_le(string_views(before)[a - 1], string_views(before)[b - 1]));
            }
        }
        assert(v@.subrange(0, k + 1) =~= v@.subrange(0, k as int).push(v@[k as int]));
        k = k + 1;
    }
    assert(v@.subrange(0, v@.len() as int) =~= v@);
    out
}

} // verus!
