//! Character-level string operations with exact specifications.
//!
//! Every function here mirrors a `str` method of std; its contract states the
//! result over `Seq<char>` views.

use vstd::prelude::*;
use vstd::string::*;

verus! {

broadcast use vstd::string::group_string_axioms;

/// Unicode `White_Space` property, as used by `char::is_whitespace`.
pub open spec fn is_ws(c: char) -> bool {
    ||| c == '\t' || c == '\n' || c == '\x0B' || c == '\x0C' || c == '\r' || c == ' '
    ||| c == '\u{85}' || c == '\u{A0}' || c == '\u{1680}'
    ||| ('\u{2000}' <= c && c <= '\u{200A}')
    ||| c == '\u{2028}' || c == '\u{2029}' || c == '\u{202F}' || c == '\u{205F}'
    ||| c == '\u{3000}'
}

pub fn is_whitespace(c: char) -> (r: bool)
    ensures
        r == is_ws(c),
{
    c == '\t' || c == '\n' || c == '\x0B' || c == '\x0C' || c == '\r' || c == ' ' || c
        == '\u{85}' || c == '\u{A0}' || c == '\u{1680}' || ('\u{2000}' <= c && c <= '\u{200A}')
        || c == '\u{2028}' || c == '\u{2029}' || c == '\u{202F}' || c == '\u{205F}' || c
        == '\u{3000}'
}

/// The characters of a string, in order.
pub fn chars_of(s: &str) -> (v: Vec<char>)
    ensures
        v@ == s@,
{
    let mut v: Vec<char> = Vec::new();
    for c in it: s.chars()
        invariant
            v@ == it.seq().take(it.index()),
    {
        v.push(c);
    }
    v
}


pub open spec fn starts_with(s: Seq<char>, p: Seq<char>) -> bool {
    p.len() <= s.len() && s.subrange(0, p.len() as int) == p
}

pub open spec fn ends_with(s: Seq<char>, p: Seq<char>) -> bool {
    p.len() <= s.len() && s.subrange(s.len() - p.len(), s.len() as int) == p
}

/// `str::strip_prefix`.
pub open spec fn strip_prefix(s: Seq<char>, p: Seq<char>) -> Option<Seq<char>> {
    if starts_with(s, p) {
        Some(s.subrange(p.len() as int, s.len() as int))
    } else {
        None
    }
}

/// `str::strip_suffix`.
pub open spec fn strip_suffix(s: Seq<char>, p: Seq<char>) -> Option<Seq<char>> {
    if ends_with(s, p) {
        Some(s.subrange(0, s.len() - p.len()))
    } else {
        None
    }
}

/// `str::trim_start_matches` with a string pattern: the prefix is removed
/// as long as it is there.
pub open spec fn trim_start_str(s: Seq<char>, p: Seq<char>) -> Seq<char>
    decreases s.len(),
{
    if p.len() > 0 && starts_with(s, p) {
        trim_start_str(s.subrange(p.len() as int, s.len() as int), p)
    } else {
        s
    }
}

/// `str::trim_end_matches` with a string pattern.
pub open spec fn trim_end_str(s: Seq<char>, p: Seq<char>) -> Seq<char>
    decreases s.len(),
{
    if p.len() > 0 && ends_with(s, p) {
        trim_end_str(s.subrange(0, s.len() - p.len()), p)
    } else {
        s
    }
}

/// `str::trim_start_matches` with a `char` pattern.
pub open spec fn trim_start_char(s: Seq<char>, c: char) -> Seq<char>
    decreases s.len(),
{
    if s.len() > 0 && s[0] == c {
        trim_start_char(s.drop_first(), c)
    } else {
        s
    }
}

/// `str::trim_end_matches` with a `char` pattern.
pub open spec fn trim_end_char(s: Seq<char>, c: char) -> Seq<char>
    decreases s.len(),
{
    if s.len() > 0 && s.last() == c {
        trim_end_char(s.drop_last(), c)
    } else {
        s
    }
}

/// `str::trim_matches` with a `char` pattern.
pub open spec fn trim_char(s: Seq<char>, c: char) -> Seq<char> {
    trim_end_char(trim_start_char(s, c), c)
}

pub open spec fn trim_start_ws(s: Seq<char>) -> Seq<char>
    decreases s.len(),
{
    if s.len() > 0 && is_ws(s[0]) {
        trim_start_ws(s.drop_first())
    } else {
        s
    }
}

pub open spec fn trim_end_ws(s: Seq<char>) -> Seq<char>
    decreases s.len(),
{
    if s.len() > 0 && is_ws(s.last()) {
        trim_end_ws(s.drop_last())
    } else {
        s
    }
}

/// `str::trim`: leading and trailing white space removed.
pub open spec fn trim(s: Seq<char>) -> Seq<char> {
    trim_end_ws(trim_start_ws(s))
}

/// Index of the first `'\n'` at or after `from`, or the length.
pub open spec fn next_newline(s: Seq<char>, from: int) -> int
    decreases s.len() - from,
{
    if from >= s.len() {
        s.len() as int
    } else if s[from] == '\n' {
        from
    } else {
        next_newline(s, from + 1)
    }
}

/// One line of `str::lines`: the text up to the newline, without a `'\r'`
/// that stands right before that newline.
pub open spec fn line_at(s: Seq<char>, start: int) -> Seq<char> {
    let e = next_newline(s, start);
    let raw = s.subrange(start, e);
    if e < s.len() && raw.len() > 0 && raw.last() == '\r' {
        raw.drop_last()
    } else {
        raw
    }
}

/// `str::lines` of the text from `start` on.
pub open spec fn lines_from(s: Seq<char>, start: int) -> Seq<Seq<char>>
    decreases s.len() + 1 - start,
{
    if start < 0 || start >= s.len() {
        seq![]
    } else {
        proof {
            lemma_next_newline_bounds(s, start);
        }
        seq![line_at(s, start)] + lines_from(s, next_newline(s, start) + 1)
    }
}

/// `str::lines`.
pub open spec fn lines(s: Seq<char>) -> Seq<Seq<char>> {
    lines_from(s, 0)
}

pub proof fn lemma_next_newline_bounds(s: Seq<char>, from: int)
    requires
        0 <= from,
    ensures
        from <= s.len() ==> from <= next_newline(s, from) <= s.len(),
        next_newline(s, from) < s.len() ==> s[next_newline(s, from)] == '\n',
        forall|k: int| from <= k < next_newline(s, from) ==> s[k] != '\n',
    decreases s.len() - from,
{
    if from < s.len() && s[from] != '\n' {
        lemma_next_newline_bounds(s, from + 1);
    }
}

/// The contents of a sequence of string slices.
pub open spec fn views(v: Seq<&str>) -> Seq<Seq<char>> {
    v.map_values(|l: &str| l@)
}

/// Whether `p` occurs in `v` at position `i`.
pub fn matches_at(v: &Vec<char>, i: usize, p: &Vec<char>) -> (r: bool)
    ensures
        r == (i + p.len() <= v.len() && v@.subrange(i as int, i + p.len()) == p@),
{
    if i > v.len() || p.len() > v.len() - i {
        return false;
    }
    let mut k: usize = 0;
    while k < p.len()
        invariant
            i + p.len() <= v.len(),
            k <= p.len(),
            forall|j: int| 0 <= j < k ==> v@[i + j] == p@[j],
        decreases p.len() - k,
    {
        if v[i + k] != p[k] {
            assert(v@.subrange(i as int, i + p.len())[k as int] != p@[k as int]);
            return false;
        }
        k = k + 1;
    }
    assert(v@.subrange(i as int, i + p.len()) =~= p@);
    true
}

/// `s == t` on string contents.
pub fn str_eq(s: &str, t: &str) -> (r: bool)
    ensures
        r == (s@ == t@),
{
    let a = chars_of(s);
    let b = chars_of(t);
    if a.len() != b.len() {
        return false;
    }
    let r = matches_at(&a, 0, &b);
    proof {
        if r {
            assert(a@ =~= a@.subrange(0, b@.len() as int));
        } else {
            assert(a@.subrange(0, b@.len() as int) =~= a@);
        }
    }
    r
}

/// `str::starts_with` with a string pattern.
pub fn starts_with_str(s: &str, p: &str) -> (r: bool)
    ensures
        r == starts_with(s@, p@),
{
    let a = chars_of(s);
    let b = chars_of(p);
    matches_at(&a, 0, &b)
}

/// `str::ends_with` with a string pattern.
pub fn ends_with_str(s: &str, p: &str) -> (r: bool)
    ensures
        r == ends_with(s@, p@),
{
    let a = chars_of(s);
    let b = chars_of(p);
    if b.len() > a.len() {
        return false;
    }
    matches_at(&a, a.len() - b.len(), &b)
}

/// `str::strip_prefix` with a string pattern.
pub fn strip_prefix_str<'a>(s: &'a str, p: &str) -> (r: Option<&'a str>)
    ensures
        r matches Some(x) ==> strip_prefix(s@, p@) == Some(x@),
        r is None ==> strip_prefix(s@, p@) is None,
{
    let a = chars_of(s);
    let b = chars_of(p);
    if matches_at(&a, 0, &b) {
        Some(s.substring_char(b.len(), a.len()))
    } else {
        None
    }
}

/// `str::strip_suffix` with a string pattern.
pub fn strip_suffix_str<'a>(s: &'a str, p: &str) -> (r: Option<&'a str>)
    ensures
        r matches Some(x) ==> strip_suffix(s@, p@) == Some(x@),
        r is None ==> strip_suffix(s@, p@) is None,
{
    let a = chars_of(s);
    let b = chars_of(p);
    if b.len() <= a.len() && matches_at(&a, a.len() - b.len(), &b) {
        Some(s.substring_char(0, a.len() - b.len()))
    } else {
        None
    }
}

/// `str::trim_start_matches` with a string pattern.
pub fn trim_start_matches_str<'a>(s: &'a str, p: &str) -> (r: &'a str)
    ensures
        r@ == trim_start_str(s@, p@),
{
    let a = chars_of(s);
    let b = chars_of(p);
    if b.len() == 0 {
        return s;
    }
    let mut i: usize = 0;
    assert(s@.subrange(0, s@.len() as int) =~= s@);
    while matches_at(&a, i, &b)
        invariant
            a@ == s@,
            b@ == p@,
            b.len() > 0,
            i <= a.len(),
            trim_start_str(s@, p@) == trim_start_str(s@.subrange(i as int, s@.len() as int), p@),
        decreases a.len() - i,
    {
        let ghost rest = s@.subrange(i as int, s@.len() as int);
        assert(rest.subrange(0, p@.len() as int) =~= a@.subrange(i as int, i + b.len()));
        assert(rest.subrange(p@.len() as int, rest.len() as int) =~= s@.subrange(
            i + b.len(),
            s@.len() as int,
        ));
        i = i + b.len();
    }
    let ghost rest = s@.subrange(i as int, s@.len() as int);
    proof {
        if p@.len() <= rest.len() {
            assert(rest.subrange(0, p@.len() as int) =~= a@.subrange(i as int, i + b.len()));
        }
    }
    s.substring_char(i, a.len())
}

/// `str::trim_end_matches` with a string pattern.
pub fn trim_end_matches_str<'a>(s: &'a str, p: &str) -> (r: &'a str)
    ensures
        r@ == trim_end_str(s@, p@),
{
    let a = chars_of(s);
    let b = chars_of(p);
    if b.len() == 0 {
        return s;
    }
    let mut j: usize = a.len();
    assert(s@.subrange(0, s@.len() as int) =~= s@);
    while j >= b.len() && matches_at(&a, j - b.len(), &b)
        invariant
            a@ == s@,
            b@ == p@,
            b.len() > 0,
            j <= a.len(),
            trim_end_str(s@, p@) == trim_end_str(s@.subrange(0, j as int), p@),
        decreases j,
    {
        let ghost rest = s@.subrange(0, j as int);
        assert(rest.subrange(rest.len() - p@.len(), rest.len() as int) =~= a@.subrange(
            j - b.len(),
            j as int,
        ));
        assert(rest.subrange(0, rest.len() - p@.len()) =~= s@.subrange(0, j - b.len()));
        j = j - b.len();
    }
    let ghost rest = s@.subrange(0, j as int);
    proof {
        if p@.len() <= rest.len() {
            assert(rest.subrange(rest.len() - p@.len(), rest.len() as int) =~= a@.subrange(
                j - b.len(),
                j as int,
            ));
        }
    }
    s.substring_char(0, j)
}

/// `str::trim_matches` with a `char` pattern.
pub fn trim_matches_char<'a>(s: &'a str, c: char) -> (r: &'a str)
    ensures
        r@ == trim_char(s@, c),
{
    let a = chars_of(s);
    let n = a.len();
    let mut i: usize = 0;
    assert(s@.subrange(0, n as int) =~= s@);
    while i < n && a[i] == c
        invariant
            a@ == s@,
            n == a.len(),
            i <= n,
            trim_start_char(s@, c) == trim_start_char(s@.subrange(i as int, n as int), c),
        decreases n - i,
    {
        assert(s@.subrange(i as int, n as int).drop_first() =~= s@.subrange(i + 1, n as int));
        i = i + 1;
    }
    let mut j: usize = n;
    while j > i && a[j - 1] == c
        invariant
            a@ == s@,
            n == a.len(),
            i <= j <= n,
            trim_start_char(s@, c) == s@.subrange(i as int, n as int),
            trim_char(s@, c) == trim_end_char(s@.subrange(i as int, j as int), c),
        decreases j,
    {
        assert(s@.subrange(i as int, j as int).drop_last() =~= s@.subrange(i as int, j - 1));
        j = j - 1;
    }
    s.substring_char(i, j)
}

/// `str::trim`.
pub fn trim_str<'a>(s: &'a str) -> (r: &'a str)
    ensures
        r@ == trim(s@),
{
    let a = chars_of(s);
    let n = a.len();
    let mut i: usize = 0;
    assert(s@.subrange(0, n as int) =~= s@);
    while i < n && is_whitespace(a[i])
        invariant
            a@ == s@,
            n == a.len(),
            i <= n,
            trim_start_ws(s@) == trim_start_ws(s@.subrange(i as int, n as int)),
        decreases n - i,
    {
        assert(s@.subrange(i as int, n as int).drop_first() =~= s@.subrange(i + 1, n as int));
        i = i + 1;
    }
    let mut j: usize = n;
    while j > i && is_whitespace(a[j - 1])
        invariant
            a@ == s@,
            n == a.len(),
            i <= j <= n,
            trim_start_ws(s@) == s@.subrange(i as int, n as int),
            trim(s@) == trim_end_ws(s@.subrange(i as int, j as int)),
        decreases j,
    {
        assert(s@.subrange(i as int, j as int).drop_last() =~= s@.subrange(i as int, j - 1));
        j = j - 1;
    }
    s.substring_char(i, j)
}

/// `str::lines`.
pub fn lines_of<'a>(s: &'a str) -> (r: Vec<&'a str>)
    ensures
        r.len() == lines(s@).len(),
        forall|k: int| 0 <= k < r.len() ==> #[trigger] r[k]@ == lines(s@)[k],
{
    let a = chars_of(s);
    let n = a.len();
    let mut out: Vec<&'a str> = Vec::new();
    let mut start: usize = 0;
    while start < n
        invariant
            a@ == s@,
            n == a.len(),
            start <= n,
            lines(s@) == out@.map_values(|l: &str| l@) + lines_from(s@, start as int),
        decreases n - start,
    {
        let mut e: usize = start;
        while e < n && a[e] != '\n'
            invariant
                a@ == s@,
                n == a.len(),
                start <= e <= n,
                next_newline(s@, start as int) == next_newline(s@, e as int),
            decreases n - e,
        {
            e = e + 1;
        }
        let end = if e < n && e > start && a[e - 1] == '\r' {
            e - 1
        } else {
            e
        };
        let line = s.substring_char(start, end);
        proof {
            assert(line@ =~= line_at(s@, start as int));
            let old_seq = out@.map_values(|l: &str| l@);
            assert(lines_from(s@, start as int) == seq![line_at(s@, start as int)] + lines_from(
                s@,
                e + 1,
            ));
            assert(old_seq.push(line@) =~= out@.push(line).map_values(|l: &str| l@));
            assert(old_seq + lines_from(s@, start as int) =~= old_seq.push(line@) + lines_from(
                s@,
                e + 1,
            ));
        }
        out.push(line);
        start = if e < n {
            e + 1
        } else {
            n
        };
        proof {
            if e >= n {
                assert(lines_from(s@, n as int) =~= seq![]);
                assert(lines_from(s@, e + 1) =~= seq![]);
            }
        }
    }
    proof {
        assert(lines_from(s@, start as int) =~= seq![]);
        assert(lines(s@) =~= out@.map_values(|l: &str| l@));
    }
    out
}


/// The contents of an optional string slice.
pub open spec fn opt_view(o: Option<&str>) -> Option<Seq<char>> {
    match o {
        Some(s) => Some(s@),
        None => None,
    }
}

/// The contents of an optional owned string.
pub open spec fn opt_string_view(o: Option<String>) -> Option<Seq<char>> {
    match o {
        Some(s) => Some(s@),
        None => None,
    }
}

/// Index of the first `c` at or after `from`, or the length.
pub open spec fn next_char(s: Seq<char>, c: char, from: int) -> int
    decreases s.len() - from,
{
    if from >= s.len() {
        s.len() as int
    } else if s[from] == c {
        from
    } else {
        next_char(s, c, from + 1)
    }
}

pub proof fn lemma_next_char_bounds(s: Seq<char>, c: char, from: int)
    requires
        0 <= from,
    ensures
        from <= s.len() ==> from <= next_char(s, c, from) <= s.len(),
        next_char(s, c, from) < s.len() ==> s[next_char(s, c, from)] == c,
        forall|k: int| from <= k < next_char(s, c, from) ==> s[k] != c,
    decreases s.len() - from,
{
    if from < s.len() && s[from] != c {
        lemma_next_char_bounds(s, c, from + 1);
    }
}

/// `str::split(c)` of the text from `start` on (empty pieces included).
pub open spec fn split_from(s: Seq<char>, c: char, start: int) -> Seq<Seq<char>>
    decreases s.len() + 1 - start,
{
    if start < 0 || start > s.len() {
        seq![]
    } else {
        proof {
            lemma_next_char_bounds(s, c, start);
        }
        let e = next_char(s, c, start);
        seq![s.subrange(start, e)] + if e < s.len() {
            split_from(s, c, e + 1)
        } else {
            seq![]
        }
    }
}

/// `str::split(c)`.
pub open spec fn split(s: Seq<char>, c: char) -> Seq<Seq<char>> {
    split_from(s, c, 0)
}

/// The text before the first `c` (all of it when there is none): the first
/// piece of `str::split(c)`.
pub open spec fn before_char(s: Seq<char>, c: char) -> Seq<char> {
    s.subrange(0, next_char(s, c, 0))
}

/// `str::split(c)`.
pub fn split_char<'a>(s: &'a str, c: char) -> (r: Vec<&'a str>)
    ensures
        views(r@) == split(s@, c),
{
    let a = chars_of(s);
    let n = a.len();
    let mut out: Vec<&'a str> = Vec::new();
    let mut start: usize = 0;
    loop
        invariant
            a@ == s@,
            n == a.len(),
            start <= n,
            split(s@, c) == views(out@) + split_from(s@, c, start as int),
        decreases n - start,
    {
        let mut e: usize = start;
        while e < n && a[e] != c
            invariant
                a@ == s@,
                n == a.len(),
                start <= e <= n,
                next_char(s@, c, start as int) == next_char(s@, c, e as int),
            decreases n - e,
        {
            e = e + 1;
        }
        let piece = s.substring_char(start, e);
        let ghost before = views(out@);
        let ghost rest = if e < n {
            split_from(s@, c, e + 1)
        } else {
            seq![]
        };
        proof {
            lemma_next_char_bounds(s@, c, start as int);
            assert(split_from(s@, c, start as int) == seq![piece@] + rest);
        }
        out.push(piece);
        assert(split(s@, c) == views(out@) + rest) by {
            assert(views(out@) =~= before.push(piece@));
            assert(before + (seq![piece@] + rest) =~= before.push(piece@) + rest);
        }
        if e >= n {
            assert(views(out@) + rest =~= views(out@));
            return out;
        }
        start = e + 1;
        assert(split(s@, c) == views(out@) + split_from(s@, c, start as int));
    }
}

/// Number of bytes of a character in UTF-8.
pub open spec fn utf8_width(c: char) -> nat {
    if (c as u32) < 0x80 {
        1
    } else if (c as u32) < 0x800 {
        2
    } else if (c as u32) < 0x10000 {
        3
    } else {
        4
    }
}

/// The longest prefix of `s` whose UTF-8 encoding fits in `n` bytes.
pub open spec fn byte_prefix(s: Seq<char>, n: nat) -> Seq<char>
    decreases s.len(),
{
    if s.len() == 0 || utf8_width(s[0]) > n {
        seq![]
    } else {
        seq![s[0]] + byte_prefix(s.drop_first(), (n - utf8_width(s[0])) as nat)
    }
}

/// Whether `&s[..n.min(s.len())]` (a byte range) ends on a character
/// boundary, i.e. does not panic.
pub open spec fn byte_slice_ok(s: Seq<char>, n: nat) -> bool
    decreases s.len(),
{
    if n == 0 || s.len() == 0 {
        true
    } else if utf8_width(s[0]) > n {
        false
    } else {
        byte_slice_ok(s.drop_first(), (n - utf8_width(s[0])) as nat)
    }
}

fn char_width(c: char) -> (r: usize)
    ensures
        r == utf8_width(c),
{
    let u = c as u32;
    if u < 0x80 {
        1
    } else if u < 0x800 {
        2
    } else if u < 0x10000 {
        3
    } else {
        4
    }
}

/// `&s[..n.min(s.len())]` with `n` counted in bytes.
pub fn byte_prefix_str<'a>(s: &'a str, n: usize) -> (r: &'a str)
    requires
        byte_slice_ok(s@, n as nat),
    ensures
        r@ == byte_prefix(s@, n as nat),
{
    let a = chars_of(s);
    let mut k: usize = 0;
    let mut left: usize = n;
    assert(s@.subrange(0, s@.len() as int) =~= s@);
    while k < a.len() && char_width(a[k]) <= left
        invariant
            a@ == s@,
            k <= a.len(),
            left <= n,
            byte_prefix(s@, n as nat) == s@.subrange(0, k as int) + byte_prefix(
                s@.subrange(k as int, s@.len() as int),
                left as nat,
            ),
        decreases a.len() - k,
    {
        let ghost rest = s@.subrange(k as int, s@.len() as int);
        assert(rest.drop_first() =~= s@.subrange(k + 1, s@.len() as int));
        assert(s@.subrange(0, k as int) + seq![rest[0]] =~= s@.subrange(0, k + 1));
        assert(s@.subrange(0, k as int) + (seq![rest[0]] + byte_prefix(
            rest.drop_first(),
            (left - utf8_width(rest[0])) as nat,
        )) =~= s@.subrange(0, k + 1) + byte_prefix(
            rest.drop_first(),
            (left - utf8_width(rest[0])) as nat,
        ));
        left = left - char_width(a[k]);
        k = k + 1;
    }
    let ghost rest = s@.subrange(k as int, s@.len() as int);
    assert(byte_prefix(rest, left as nat) =~= seq![]);
    assert(s@.subrange(0, k as int) + seq![] =~= s@.subrange(0, k as int));
    s.substring_char(0, k)
}

/// `a` followed by `b`, as a new string.
pub fn concat(a: &str, b: &str) -> (r: String)
    ensures
        r@ == a@ + b@,
{
    let mut s = a.to_owned();
    s.append(b);
    s
}

/// `a`, `b` and `c` in order, as a new string.
pub fn concat3(a: &str, b: &str, c: &str) -> (r: String)
    ensures
        r@ == a@ + b@ + c@,
{
    let mut s = a.to_owned();
    s.append(b);
    s.append(c);
    s
}

/// An owned copy of a string slice.
pub fn owned(a: &str) -> (r: String)
    ensures
        r@ == a@,
{
    a.to_owned()
}


/// The character sequences of a list of strings.
pub open spec fn string_views(v: Seq<String>) -> Seq<Seq<char>> {
    v.map_values(|s: String| s@)
}

/// `parts` joined with `sep` between neighbours (`[a, b].join(sep)`).
pub open spec fn joined(parts: Seq<Seq<char>>, sep: Seq<char>) -> Seq<char>
    decreases parts.len(),
{
    if parts.len() == 0 {
        seq![]
    } else if parts.len() == 1 {
        parts[0]
    } else {
        joined(parts.drop_last(), sep) + sep + parts.last()
    }
}

/// `parts.join(sep)`.
pub fn join_strings(parts: &Vec<String>, sep: &str) -> (r: String)
    ensures
        r@ == joined(string_views(parts@), sep@),
{
    if parts.len() == 0 {
        return String::new();
    }
    let mut out = parts[0].clone();
    let mut k: usize = 1;
    assert(string_views(parts@).subrange(0, 1) =~= seq![parts@[0]@]);
    while k < parts.len()
        invariant
            1 <= k <= parts.len(),
            out@ == joined(string_views(parts@).subrange(0, k as int), sep@),
        decreases parts.len() - k,
    {
        let ghost before = string_views(parts@).subrange(0, k as int);
        out.append(sep);
        out.append(parts[k].as_str());
        assert(string_views(parts@).subrange(0, k + 1).drop_last() =~= before);
        k = k + 1;
    }
    assert(string_views(parts@).subrange(0, parts@.len() as int) =~= string_views(parts@));
    out
}


/// `s.replace(from, to)` for a non-empty pattern: the occurrences of `from`,
/// found left to right without overlap, each replaced by `to`.
pub open spec fn replaced(s: Seq<char>, from: Seq<char>, to: Seq<char>) -> Seq<char>
    decreases s.len(),
{
    if from.len() == 0 || s.len() < from.len() {
        s
    } else if s.subrange(0, from.len() as int) == from {
        to + replaced(s.subrange(from.len() as int, s.len() as int), from, to)
    } else {
        seq![s[0]] + replaced(s.drop_first(), from, to)
    }
}

/// Where no occurrence starts at the front, `replaced` keeps the first
/// character and goes on with the rest.
pub proof fn lemma_replaced_step(t: Seq<char>, from: Seq<char>, to: Seq<char>)
    requires
        from.len() > 0,
        t.len() > 0,
        !(t.len() >= from.len() && t.subrange(0, from.len() as int) == from),
    ensures
        replaced(t, from, to) == seq![t[0]] + replaced(t.drop_first(), from, to),
{
    if t.len() < from.len() {
        assert(replaced(t.drop_first(), from, to) == t.drop_first());
        assert(t =~= seq![t[0]] + t.drop_first());
    }
}

/// `s.replace(from, to)`.
pub fn replace_all(s: &str, from: &str, to: &str) -> (r: String)
    requires
        from@.len() > 0,
    ensures
        r@ == replaced(s@, from@, to@),
{
    let v = chars_of(s);
    let p = chars_of(from);
    let n = v.len();
    let m = p.len();
    let mut out = String::new();
    let mut start: usize = 0;
    let mut i: usize = 0;
    assert(s@.subrange(0, n as int) =~= s@);
    assert(s@.subrange(0, 0) =~= Seq::<char>::empty());
    assert(out@ + s@.subrange(0, 0) =~= Seq::<char>::empty());
    while i < n
        invariant
            n == s@.len(),
            v@ == s@,
            p@ == from@,
            m == from@.len(),
            m > 0,
            start <= i <= n,
            out@ + s@.subrange(start as int, i as int) + replaced(
                s@.subrange(i as int, n as int),
                from@,
                to@,
            ) == replaced(s@, from@, to@),
        decreases n - i,
    {
        let ghost t = s@.subrange(i as int, n as int);
        if matches_at(&v, i, &p) {
            assert(t.subrange(0, m as int) =~= s@.subrange(i as int, i + m));
            assert(t.subrange(m as int, t.len() as int) =~= s@.subrange(i + m, n as int));
            let ghost before = out@;
            out.append(s.substring_char(start, i));
            out.append(to);
            assert(out@ =~= before + s@.subrange(start as int, i as int) + to@);
            assert(s@.subrange((i + m) as int, (i + m) as int) =~= Seq::<char>::empty());
            i = i + m;
            start = i;
            assert(out@ + s@.subrange(start as int, i as int) =~= out@);
        } else {
            assert(!(t.len() >= from@.len() && t.subrange(0, from@.len() as int) == from@)) by {
                if t.len() >= from@.len() {
                    assert(t.subrange(0, m as int) =~= s@.subrange(i as int, i + m));
                }
            }
            proof {
                lemma_replaced_step(t, from@, to@);
            }
            assert(t.drop_first() =~= s@.subrange(i + 1, n as int));
            assert(s@.subrange(start as int, i + 1) =~= s@.subrange(start as int, i as int).push(t[0]));
            i = i + 1;
        }
    }
    let ghost before = out@;
    out.append(s.substring_char(start, n));
    assert(s@.subrange(n as int, n as int) =~= Seq::<char>::empty());
    out
}

} // verus!
