//! Version strings of the control plane and the binary, and their order.

use vstd::prelude::*;
use crate::text::chars_of;

verus! {

/// Component `i` of a version, 0 past its end.
pub open spec fn component(a: Seq<u32>, i: int) -> int {
    if 0 <= i < a.len() {
        a[i] as int
    } else {
        0
    }
}

pub open spec fn max_len(a: Seq<u32>, b: Seq<u32>) -> int {
    if a.len() >= b.len() {
        a.len() as int
    } else {
        b.len() as int
    }
}

/// Comparison of versions from component `i` on: the first component that
/// differs decides; missing components count as 0.
pub open spec fn version_order(a: Seq<u32>, b: Seq<u32>, i: int) -> int
    decreases max_len(a, b) - i,
{
    if i >= max_len(a, b) || i < 0 {
        0
    } else if component(a, i) > component(b, i) {
        1
    } else if component(a, i) < component(b, i) {
        -1
    } else {
        version_order(a, b, i + 1)
    }
}

/// Compare two version arrays. Returns -1, 0, or 1.
pub fn compare_versions(a: &[u32], b: &[u32]) -> (r: i32)
    ensures
        r == version_order(a@, b@, 0),
{
    let n = if a.len() >= b.len() {
        a.len()
    } else {
        b.len()
    };
    let mut i: usize = 0;
    while i < n
        invariant
            n == max_len(a@, b@),
            i <= n,
            version_order(a@, b@, 0) == version_order(a@, b@, i as int),
        decreases n - i,
    {
        let av: u32 = if i < a.len() {
            a[i]
        } else {
            0
        };
        let bv: u32 = if i < b.len() {
            b[i]
        } else {
            0
        };
        if av > bv {
            return 1;
        }
        if av < bv {
            return -1;
        }
        i = i + 1;
    }
    0
}

/// Swapping the arguments negates the comparison.
pub proof fn lemma_compare_antisymmetric(a: Seq<u32>, b: Seq<u32>, i: int)
    requires
        0 <= i,
    ensures
        version_order(a, b, i) == -version_order(b, a, i),
    decreases max_len(a, b) - i,
{
    if i < max_len(a, b) && component(a, i) == component(b, i) {
        lemma_compare_antisymmetric(a, b, i + 1);
    }
}

/// A version compares equal to itself.
pub proof fn lemma_compare_reflexive(a: Seq<u32>, i: int)
    requires
        0 <= i,
    ensures
        version_order(a, a, i) == 0,
    decreases max_len(a, a) - i,
{
    if i < max_len(a, a) {
        lemma_compare_reflexive(a, i + 1);
    }
}

/// Trailing zero components do not change a version: `1.2` equals `1.2.0`.
pub proof fn lemma_compare_trailing_zero(a: Seq<u32>, i: int)
    requires
        0 <= i,
    ensures
        version_order(a, a.push(0), i) == 0,
    decreases max_len(a, a.push(0)) - i,
{
    if i < max_len(a, a.push(0)) {
        lemma_compare_trailing_zero(a, i + 1);
    }
}

/// The comparison is a total order: it is transitive.
pub proof fn lemma_compare_transitive(a: Seq<u32>, b: Seq<u32>, c: Seq<u32>, i: int)
    requires
        0 <= i,
        version_order(a, b, i) >= 0,
        version_order(b, c, i) >= 0,
    ensures
        version_order(a, c, i) >= 0,
    decreases a.len() + b.len() + c.len() - i,
{
    if i < max_len(a, b) || i < max_len(b, c) || i < max_len(a, c) {
        if component(a, i) == component(b, i) && component(b, i) == component(c, i) {
            lemma_compare_transitive(a, b, c, i + 1);
        }
    }
}

// ---- parsing ----

/// Decimal value of a digit sequence.
pub open spec fn digits_value(s: Seq<char>) -> nat
    decreases s.len(),
{
    if s.len() == 0 {
        0
    } else {
        digits_value(s.drop_last()) * 10 + ((s.last() as u32) - ('0' as u32)) as nat
    }
}

pub open spec fn all_digits(s: Seq<char>) -> bool {
    forall|i: int| 0 <= i < s.len() ==> '0' <= #[trigger] s[i] <= '9'
}

/// `str::parse::<u32>`: an optional `+`, then one or more ASCII digits,
/// with a value that fits.
pub open spec fn parse_u32_spec(s: Seq<char>) -> Option<u32> {
    let d = if s.len() > 0 && s[0] == '+' {
        s.drop_first()
    } else {
        s
    };
    if d.len() > 0 && all_digits(d) && digits_value(d) <= u32::MAX {
        Some(digits_value(d) as u32)
    } else {
        None
    }
}

/// `str::parse::<u32>().ok()`.
pub fn parse_u32(s: &str) -> (r: Option<u32>)
    ensures
        r == parse_u32_spec(s@),
{
    let cs = chars_of(s);
    let start: usize = if cs.len() > 0 && cs[0] == '+' {
        1
    } else {
        0
    };
    let ghost d = if s@.len() > 0 && s@[0] == '+' {
        s@.drop_first()
    } else {
        s@
    };
    assert(d =~= s@.subrange(start as int, s@.len() as int));
    if start >= cs.len() {
        return None;
    }
    let mut v: u64 = 0;
    let mut k: usize = start;
    while k < cs.len()
        invariant
            cs@ == s@,
            start <= k <= cs.len(),
            d == s@.subrange(start as int, s@.len() as int),
            d == (if s@.len() > 0 && s@[0] == '+' {
                s@.drop_first()
            } else {
                s@
            }),
            d.len() > 0,
            all_digits(s@.subrange(start as int, k as int)),
            v == digits_value(s@.subrange(start as int, k as int)),
            v <= u32::MAX,
        decreases cs.len() - k,
    {
        let c = cs[k];
        if !('0' <= c && c <= '9') {
            proof {
                assert(d[k - start] == c);
            }
            return None;
        }
        let ghost pre = s@.subrange(start as int, k as int);
        let ghost cur = s@.subrange(start as int, k + 1);
        assert(cur.drop_last() =~= pre);
        assert(cur.last() == c);
        let nv = v * 10 + ((c as u32) - ('0' as u32)) as u64;
        if nv > 4294967295u64 {
            proof {
                if all_digits(d) {
                    lemma_digits_value_prefix(d, (k + 1 - start) as int);
                    assert(d.subrange(0, (k + 1 - start) as int) =~= cur);
                }
            }
            return None;
        }
        v = nv;
        k = k + 1;
    }
    assert(s@.subrange(start as int, cs.len() as int) =~= d);
    Some(v as u32)
}

/// The value of a non-empty run of ASCII digits when it is at most `max`.
pub open spec fn decimal_upto(s: Seq<char>, max: nat) -> Option<nat> {
    if s.len() > 0 && all_digits(s) && digits_value(s) <= max {
        Some(digits_value(s))
    } else {
        None
    }
}

/// Read a non-empty run of ASCII digits whose value is at most `max`.
pub fn parse_decimal(s: &str, max: u64) -> (r: Option<u64>)
    ensures
        match r {
            Some(v) => decimal_upto(s@, max as nat) == Some(v as nat),
            None => decimal_upto(s@, max as nat) is None,
        },
{
    let cs = chars_of(s);
    if cs.len() == 0 {
        return None;
    }
    let mut v: u64 = 0;
    let mut k: usize = 0;
    while k < cs.len()
        invariant
            cs@ == s@,
            k <= cs.len(),
            s@.len() > 0,
            all_digits(s@.subrange(0, k as int)),
            v == digits_value(s@.subrange(0, k as int)),
            v <= max,
        decreases cs.len() - k,
    {
        let c = cs[k];
        if !('0' <= c && c <= '9') {
            return None;
        }
        let ghost pre = s@.subrange(0, k as int);
        let ghost cur = s@.subrange(0, k + 1);
        assert(cur.drop_last() =~= pre);
        assert(cur.last() == c);
        let d = ((c as u32) - ('0' as u32)) as u64;
        if d > max || v > (max - d) / 10 {
            proof {
                if all_digits(s@) {
                    lemma_digits_value_prefix(s@, k + 1);
                }
                if d <= max {
                    assert(v * 10 + d > max) by (nonlinear_arith)
                        requires
                            v > (max - d) / 10,
                            d <= max,
                    ;
                }
            }
            return None;
        }
        proof {
            assert(v * 10 + d <= max) by (nonlinear_arith)
                requires
                    v <= (max - d) / 10,
                    d <= max,
            ;
        }
        v = v * 10 + d;
        k = k + 1;
    }
    assert(s@.subrange(0, cs.len() as int) =~= s@);
    Some(v)
}

/// A longer digit prefix has a value at least as large.
pub proof fn lemma_digits_value_prefix(s: Seq<char>, k: int)
    requires
        0 <= k <= s.len(),
        all_digits(s),
    ensures
        digits_value(s.subrange(0, k)) <= digits_value(s),
    decreases s.len() - k,
{
    if k < s.len() {
        lemma_digits_value_prefix(s, k + 1);
        let a = s.subrange(0, k);
        let b = s.subrange(0, k + 1);
        assert(b.drop_last() =~= a);
        assert(b.last() == s[k]);
        assert('0' <= b.last() <= '9');
        assert(digits_value(b) == digits_value(a) * 10 + ((b.last() as u32) - ('0' as u32)) as nat);
    } else {
        assert(s.subrange(0, k) =~= s);
    }
}


/// The decimal digits of `n` are digits, one or more, and read back as `n`.
proof fn lemma_decimal_digits_value(n: nat)
    ensures
        crate::mock::decimal_digits(n).len() > 0,
        all_digits(crate::mock::decimal_digits(n)),
        digits_value(crate::mock::decimal_digits(n)) == n,
    decreases n,
{
    let d = crate::mock::decimal_digits(n);
    if n < 10 {
        assert(d.drop_last() =~= Seq::<char>::empty());
        assert(('0' as u32) == 48 && ('9' as u32) == 57);
        assert(d.last() == crate::mock::hex_char(n as int));
        assert((crate::mock::hex_char(n as int) as u32) == 48 + n);
        assert(digits_value(d) == digits_value(d.drop_last()) * 10 + n);
    } else {
        lemma_decimal_digits_value(n / 10);
        let p = crate::mock::decimal_digits(n / 10);
        assert(d == p.push(crate::mock::hex_char((n % 10) as int)));
        assert(d.drop_last() =~= p);
        assert((crate::mock::hex_char((n % 10) as int) as u32) == 48 + n % 10);
        assert(d.last() == crate::mock::hex_char((n % 10) as int));
        assert(digits_value(d) == digits_value(p) * 10 + (n % 10));
        assert((n / 10) * 10 + n % 10 == n) by (nonlinear_arith);
        assert forall|i: int| 0 <= i < d.len() implies '0' <= #[trigger] d[i] <= '9' by {
            if i < p.len() {
                assert(d[i] == p[i]);
            }
        }
    }
}

/// Every number that fits a `u32` reads back from its decimal digits, with
/// or without a leading `+`: version components of any width parse (`10`
/// as ten, not dropped).
pub proof fn lemma_parse_u32_reads_decimal(n: u32)
    ensures
        parse_u32_spec(crate::mock::decimal_digits(n as nat)) == Some(n),
        parse_u32_spec(seq!['+'] + crate::mock::decimal_digits(n as nat)) == Some(n),
{
    lemma_decimal_digits_value(n as nat);
    let d = crate::mock::decimal_digits(n as nat);
    assert(d[0] != '+');
    assert((seq!['+'] + d).drop_first() =~= d);
}

/// A component that is larger at the first place two versions differ makes
/// that version the greater one, whatever follows: `0.10.0` is after `0.9.0`.
pub proof fn lemma_larger_component_is_greater(a: Seq<u32>, b: Seq<u32>, i: int)
    requires
        0 <= i < a.len(),
        i < b.len(),
        a[i] > b[i],
        forall|j: int| 0 <= j < i ==> a[j] == b[j],
    ensures
        version_order(a, b, 0) == 1,
        version_order(b, a, 0) == -1,
    decreases i,
{
    lemma_order_from_prefix(a, b, 0, i);
    lemma_compare_antisymmetric(a, b, 0);
}

proof fn lemma_order_from_prefix(a: Seq<u32>, b: Seq<u32>, k: int, i: int)
    requires
        0 <= k <= i,
        i < a.len(),
        i < b.len(),
        a[i] > b[i],
        forall|j: int| 0 <= j < i ==> a[j] == b[j],
    ensures
        version_order(a, b, k) == 1,
    decreases i - k,
{
    if k < i {
        lemma_order_from_prefix(a, b, k + 1, i);
    }
}

/// The numeric components among `parts`, in order (`filter_map` of
/// `parse::<u32>().ok()`).
pub open spec fn numeric_parts(parts: Seq<Seq<char>>) -> Seq<u32>
    decreases parts.len(),
{
    if parts.len() == 0 {
        seq![]
    } else {
        (match parse_u32_spec(parts[0]) {
            Some(n) => seq![n],
            None => seq![],
        }) + numeric_parts(parts.drop_first())
    }
}

/// The components of a version string: the part before any `-` suffix,
/// split on `.`, keeping the components that are numbers.
pub open spec fn version_parts(v: Seq<char>) -> Seq<u32> {
    numeric_parts(crate::text::split(crate::text::before_char(v, '-'), '.'))
}

proof fn lemma_next_char_at(s: Seq<char>, c: char, from: int, to: int)
    requires
        0 <= from <= to <= s.len(),
        forall|k: int| from <= k < to ==> s[k] != c,
        to == s.len() || s[to] == c,
    ensures
        crate::text::next_char(s, c, from) == to,
    decreases to - from,
{
    if from < to {
        lemma_next_char_at(s, c, from + 1, to);
    }
}

/// A version written as three decimal numbers joined by dots reads back as
/// those three numbers, whatever their width: `0.10.0` is `[0, 10, 0]`.
pub proof fn lemma_version_parts_of_decimal(a: u32, b: u32, c: u32)
    ensures
        version_parts(
            crate::mock::decimal_digits(a as nat) + "."@ + crate::mock::decimal_digits(b as nat) + "."@
                + crate::mock::decimal_digits(c as nat),
        ) == seq![a, b, c],
{
    reveal_strlit(".");
    let da = crate::mock::decimal_digits(a as nat);
    let db = crate::mock::decimal_digits(b as nat);
    let dc = crate::mock::decimal_digits(c as nat);
    lemma_decimal_digits_value(a as nat);
    lemma_decimal_digits_value(b as nat);
    lemma_decimal_digits_value(c as nat);
    lemma_parse_u32_reads_decimal(a);
    lemma_parse_u32_reads_decimal(b);
    lemma_parse_u32_reads_decimal(c);
    let v = da + "."@ + db + "."@ + dc;
    let n = v.len() as int;
    let i1 = da.len() as int;
    let i2 = i1 + 1 + db.len();
    assert(v =~= da + seq!['.'] + db + seq!['.'] + dc);
    assert forall|k: int| 0 <= k < n implies v[k] != '-' && (k != i1 && k != i2 ==> v[k] != '.') by {
        if k < i1 {
            assert(v[k] == da[k]);
        } else if k == i1 {
        } else if k < i2 {
            assert(v[k] == db[k - i1 - 1]);
        } else if k == i2 {
        } else {
            assert(v[k] == dc[k - i2 - 1]);
        }
    }
    lemma_next_char_at(v, '-', 0, n);
    assert(crate::text::before_char(v, '-') =~= v);
    lemma_next_char_at(v, '.', 0, i1);
    lemma_next_char_at(v, '.', i1 + 1, i2);
    lemma_next_char_at(v, '.', i2 + 1, n);
    assert(v.subrange(0, i1) =~= da);
    assert(v.subrange(i1 + 1, i2) =~= db);
    assert(v.subrange(i2 + 1, n) =~= dc);
    let sp = crate::text::split(v, '.');
    assert(crate::text::split_from(v, '.', i2 + 1) =~= seq![dc]);
    assert(crate::text::split_from(v, '.', i1 + 1) =~= seq![db, dc]);
    assert(sp =~= seq![da, db, dc]);
    assert(sp.drop_first() =~= seq![db, dc]);
    assert(sp.drop_first().drop_first() =~= seq![dc]);
    assert(sp.drop_first().drop_first().drop_first() =~= Seq::<Seq<char>>::empty());
    assert(seq![dc].drop_first() =~= Seq::<Seq<char>>::empty());
    assert(numeric_parts(Seq::<Seq<char>>::empty()) == Seq::<u32>::empty());
    assert(seq![dc][0] == dc);
    assert(numeric_parts(seq![dc]) =~= seq![c]);
    assert(seq![db, dc].drop_first() =~= seq![dc]);
    assert(seq![db, dc][0] == db);
    assert(numeric_parts(seq![db, dc]) =~= seq![b, c]);
    assert(sp[0] == da);
    assert(numeric_parts(sp) =~= seq![a, b, c]);
}

/// Of two `x.a.z`-style versions that differ first in one component, the one
/// with the larger component is the newer, whatever the digits' widths
/// (`0.10.0` is newer than `0.9.0`).
pub proof fn lemma_newer_component_orders_versions(x: u32, a: u32, b: u32, z: u32)
    requires
        a > b,
    ensures
        version_order(
            version_parts(
                crate::mock::decimal_digits(x as nat) + "."@ + crate::mock::decimal_digits(a as nat) + "."@
                    + crate::mock::decimal_digits(z as nat),
            ),
            version_parts(
                crate::mock::decimal_digits(x as nat) + "."@ + crate::mock::decimal_digits(b as nat) + "."@
                    + crate::mock::decimal_digits(z as nat),
            ),
            0,
        ) == 1,
{
    lemma_version_parts_of_decimal(x, a, z);
    lemma_version_parts_of_decimal(x, b, z);
    lemma_larger_component_is_greater(seq![x, a, z], seq![x, b, z], 1);
}

/// Parse a version string, ignoring pre-release suffixes
/// (`1.2.3-beta` gives `[1, 2, 3]`).
pub fn parse_version(v: &str) -> (r: Vec<u32>)
    ensures
        r@ == version_parts(v@),
{
    let pieces = crate::text::split_char(v, '-');
    proof {
        crate::text::lemma_next_char_bounds(v@, '-', 0);
        let sp = crate::text::split(v@, '-');
        assert(sp.len() >= 1 && sp[0] == crate::text::before_char(v@, '-'));
        assert(crate::text::views(pieces@).len() == pieces@.len());
        assert(crate::text::views(pieces@)[0] == pieces@[0]@);
    }
    let head = pieces[0];
    let parts = crate::text::split_char(head, '.');
    let ghost ps = crate::text::views(parts@);
    let mut out: Vec<u32> = Vec::new();
    let mut k: usize = 0;
    assert(ps.subrange(0, ps.len() as int) =~= ps);
    while k < parts.len()
        invariant
            ps == crate::text::views(parts@),
            ps.len() == parts.len(),
            k <= parts.len(),
            numeric_parts(ps) == out@ + numeric_parts(ps.subrange(k as int, ps.len() as int)),
        decreases parts.len() - k,
    {
        let ghost rest = ps.subrange(k as int, ps.len() as int);
        assert(rest.drop_first() =~= ps.subrange(k + 1, ps.len() as int));
        assert(rest[0] == parts@[k as int]@);
        let ghost before = out@;
        match parse_u32(parts[k]) {
            Some(n) => {
                out.push(n);
                assert(before + (seq![n] + numeric_parts(rest.drop_first())) =~= out@
                    + numeric_parts(rest.drop_first()));
            },
            None => {
                assert(before + (seq![] + numeric_parts(rest.drop_first())) =~= out@
                    + numeric_parts(rest.drop_first()));
            },
        }
        k = k + 1;
    }
    assert(numeric_parts(ps.subrange(k as int, ps.len() as int)) =~= seq![]);
    assert(out@ + seq![] =~= out@);
    out
}

} // verus!
