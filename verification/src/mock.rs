//! Mock-mode configuration and naming: branch prefixes from layer contracts,
//! issue labels, mock identifiers and requirement fields.

use vstd::prelude::*;
use crate::error::AppError;
use crate::layer::{Layer, layer_dir};
use crate::path::{parent_name, path_parent_name};
use crate::text::{
    lines, lines_of, owned, starts_with, starts_with_str, trim, trim_char, trim_matches_char,
    trim_start_matches_str, trim_start_str, trim_str,
};

verus! {

/// The value part of a `key: value` line (already trimmed): the text after
/// the key, trimmed, without surrounding double and then single quotes.
pub open spec fn field_value(t: Seq<char>, key: Seq<char>) -> Seq<char> {
    trim_char(trim_char(trim(trim_start_str(t, key)), '"'), '\'')
}

/// The value of the first line that sets a non-empty `branch_prefix`.
pub open spec fn first_branch_prefix(ls: Seq<Seq<char>>) -> Option<Seq<char>>
    decreases ls.len(),
{
    if ls.len() == 0 {
        None
    } else if starts_with(trim(ls[0]), "branch_prefix:"@) && field_value(
        trim(ls[0]),
        "branch_prefix:"@,
    ).len() > 0 {
        Some(field_value(trim(ls[0]), "branch_prefix:"@))
    } else {
        first_branch_prefix(ls.drop_first())
    }
}

/// The value of the last line that starts with `key`.
pub open spec fn last_field(ls: Seq<Seq<char>>, key: Seq<char>) -> Option<Seq<char>>
    decreases ls.len(),
{
    if ls.len() == 0 {
        None
    } else if starts_with(trim(ls.last()), key) {
        Some(field_value(trim(ls.last()), key))
    } else {
        last_field(ls.drop_last(), key)
    }
}

/// The value of the last line that starts with `key` and gives a non-empty
/// value.
pub open spec fn last_nonempty_field(ls: Seq<Seq<char>>, key: Seq<char>) -> Option<Seq<char>>
    decreases ls.len(),
{
    if ls.len() == 0 {
        None
    } else if starts_with(trim(ls.last()), key) && field_value(trim(ls.last()), key).len() > 0 {
        Some(field_value(trim(ls.last()), key))
    } else {
        last_nonempty_field(ls.drop_last(), key)
    }
}

/// `value` of a `key: value` line, as `field_value` states it.
pub fn field_value_of<'a>(t: &'a str, key: &str) -> (r: &'a str)
    ensures
        r@ == field_value(t@, key@),
{
    let v = trim_str(trim_start_matches_str(t, key));
    trim_matches_char(trim_matches_char(v, '"'), '\'')
}

/// Extract `branch_prefix` from the content of a layer's `contracts.yml`.
pub fn extract_branch_prefix(content: &str) -> (r: Option<String>)
    ensures
        r matches Some(x) ==> first_branch_prefix(lines(content@)) == Some(x@),
        r is None ==> first_branch_prefix(lines(content@)) is None,
{
    let ls = lines_of(content);
    let ghost all = lines(content@);
    let mut k: usize = 0;
    assert(all.subrange(0, all.len() as int) =~= all);
    while k < ls.len()
        invariant
            ls.len() == all.len(),
            forall|j: int| 0 <= j < ls.len() ==> #[trigger] ls[j]@ == all[j],
            all == lines(content@),
            k <= ls.len(),
            first_branch_prefix(all) == first_branch_prefix(all.subrange(k as int, all.len() as int)),
        decreases ls.len() - k,
    {
        let ghost rest = all.subrange(k as int, all.len() as int);
        assert(rest[0] == ls[k as int]@);
        let line = trim_str(ls[k]);
        if starts_with_str(line, "branch_prefix:") {
            let value = field_value_of(line, "branch_prefix:");
            if value.unicode_len() > 0 {
                return Some(owned(value));
            }
        }
        assert(rest.drop_first() =~= all.subrange(k + 1, all.len() as int));
        k = k + 1;
    }
    None
}

/// Values of the last `label:` and `id:` lines, as `last_field` states them.
pub(crate) fn last_label_and_id(content: &str, skip_empty: bool) -> (r: (Option<String>, Option<String>))
    ensures
        !skip_empty ==> crate::text::opt_string_view(r.0) == last_field(lines(content@), "label:"@),
        !skip_empty ==> crate::text::opt_string_view(r.1) == last_field(lines(content@), "id:"@),
        skip_empty ==> crate::text::opt_string_view(r.0) == last_nonempty_field(
            lines(content@),
            "label:"@,
        ),
        skip_empty ==> crate::text::opt_string_view(r.1) == last_nonempty_field(
            lines(content@),
            "id:"@,
        ),
{
    proof {
        reveal_strlit("label:");
        reveal_strlit("id:");
    }
    let ls = lines_of(content);
    let ghost all = lines(content@);
    let mut label: Option<String> = None;
    let mut id: Option<String> = None;
    let mut k: usize = 0;
    while k < ls.len()
        invariant
            ls.len() == all.len(),
            forall|j: int| 0 <= j < ls.len() ==> #[trigger] ls[j]@ == all[j],
            all == lines(content@),
            k <= ls.len(),
            !skip_empty ==> crate::text::opt_string_view(label) == last_field(
                all.take(k as int),
                "label:"@,
            ),
            !skip_empty ==> crate::text::opt_string_view(id) == last_field(all.take(k as int), "id:"@),
            skip_empty ==> crate::text::opt_string_view(label) == last_nonempty_field(
                all.take(k as int),
                "label:"@,
            ),
            skip_empty ==> crate::text::opt_string_view(id) == last_nonempty_field(
                all.take(k as int),
                "id:"@,
            ),
        decreases ls.len() - k,
    {
        let line = trim_str(ls[k]);
        let ghost pre = all.take(k as int);
        let ghost cur = all.take(k + 1);
        assert(cur.drop_last() =~= pre);
        assert(cur.last() == ls[k as int]@);
        if starts_with_str(line, "label:") {
            let value = field_value_of(line, "label:");
            if !skip_empty || value.unicode_len() > 0 {
                label = Some(owned(value));
            }
            proof {
                reveal_strlit("label:");
                reveal_strlit("id:");
                assert(line@ == trim(cur.last()));
                if starts_with(line@, "id:"@) {
                    assert(line@.subrange(0, 6)[0] == line@[0]);
                    assert(line@.subrange(0, 3)[0] == line@[0]);
                    assert("label:"@[0] == 'l');
                    assert("id:"@[0] == 'i');
                    assert(false);
                }
            }
        } else if starts_with_str(line, "id:") {
            let value = field_value_of(line, "id:");
            if !skip_empty || value.unicode_len() > 0 {
                id = Some(owned(value));
            }
        }
        k = k + 1;
    }
    assert(all.take(all.len() as int) =~= all);
    (label, id)
}

/// Parse issue content to extract label and ID for branch naming.
///
/// The last `label:` and `id:` lines count. Without a `label:` line the
/// label is the name of the directory that holds the file (else `bugs`);
/// without an `id:` line a fresh mock identifier is used.
pub fn parse_issue_for_branch(content: &str, path: &str) -> (r: Result<(String, String), AppError>)
    ensures
        r is Ok,
        r matches Ok((label, id)) ==> label@ == (match last_field(lines(content@), "label:"@) {
            Some(v) => v,
            None => match parent_name(path@) {
                Some(d) => d,
                None => "bugs"@,
            },
        }) && (match last_field(lines(content@), "id:"@) {
            Some(v) => id@ == v,
            None => is_mock_id(id@),
        }),
{
    let (label, id) = last_label_and_id(content, false);
    let label = match label {
        Some(l) => l,
        None => match path_parent_name(path) {
            Some(d) => owned(d),
            None => owned("bugs"),
        },
    };
    let id = match id {
        Some(i) => i,
        None => generate_mock_id(),
    };
    Ok((label, id))
}

/// Whether an identifier has the shape that requirement files must use:
/// six characters, each a lowercase ASCII letter or a digit.
pub open spec fn valid_requirement_id(id: Seq<char>) -> bool {
    id.len() == 6 && forall|i: int|
        0 <= i < 6 ==> ('a' <= #[trigger] id[i] <= 'z') || ('0' <= id[i] <= '9')
}

/// Whether `id` is six lowercase ASCII letters or digits.
pub fn is_valid_requirement_id(id: &str) -> (r: bool)
    ensures
        r == valid_requirement_id(id@),
{
    let cs = crate::text::chars_of(id);
    if cs.len() != 6 {
        return false;
    }
    let mut k: usize = 0;
    while k < 6
        invariant
            cs@ == id@,
            cs.len() == 6,
            k <= 6,
            forall|i: int| 0 <= i < k ==> ('a' <= #[trigger] cs@[i] <= 'z') || ('0' <= cs@[i] <= '9'),
        decreases 6 - k,
    {
        let c = cs[k];
        if !(('a' <= c && c <= 'z') || ('0' <= c && c <= '9')) {
            return false;
        }
        k = k + 1;
    }
    true
}

// ---- mock identifiers ----

pub open spec fn hex_char(d: int) -> char {
    if d == 0 { '0' } else if d == 1 { '1' } else if d == 2 { '2' } else if d == 3 { '3' }
    else if d == 4 { '4' } else if d == 5 { '5' } else if d == 6 { '6' } else if d == 7 { '7' }
    else if d == 8 { '8' } else if d == 9 { '9' } else if d == 10 { 'a' } else if d == 11 { 'b' }
    else if d == 12 { 'c' } else if d == 13 { 'd' } else if d == 14 { 'e' } else { 'f' }
}

/// `format!("{:0w$x}", v)` for values below `16^w`: `w` lowercase hex digits.
pub open spec fn hex_digits(v: nat, width: nat) -> Seq<char>
    decreases width,
{
    if width == 0 {
        seq![]
    } else {
        hex_digits(v / 16, (width - 1) as nat).push(hex_char((v % 16) as int))
    }
}

/// The identifiers `generate_mock_id` produces: six lowercase hex digits of
/// a value below `0xFFFFFF`.
pub open spec fn is_mock_id(s: Seq<char>) -> bool {
    exists|v: nat| v < 0xFFFFFF && s == hex_digits(v, 6)
}

pub(crate) fn hex_digit(d: u32) -> (r: &'static str)
    requires
        d < 16,
    ensures
        r@ == seq![hex_char(d as int)],
{
    proof {
        reveal_strlit("0");
        reveal_strlit("1");
        reveal_strlit("2");
        reveal_strlit("3");
        reveal_strlit("4");
        reveal_strlit("5");
        reveal_strlit("6");
        reveal_strlit("7");
        reveal_strlit("8");
        reveal_strlit("9");
        reveal_strlit("a");
        reveal_strlit("b");
        reveal_strlit("c");
        reveal_strlit("d");
        reveal_strlit("e");
        reveal_strlit("f");
    }
    let r = if d == 0 { "0" } else if d == 1 { "1" } else if d == 2 { "2" } else if d == 3 { "3" }
    else if d == 4 { "4" } else if d == 5 { "5" } else if d == 6 { "6" } else if d == 7 { "7" }
    else if d == 8 { "8" } else if d == 9 { "9" } else if d == 10 { "a" } else if d == 11 { "b" }
    else if d == 12 { "c" } else if d == 13 { "d" } else if d == 14 { "e" } else { "f" };
    assert(r@ =~= seq![hex_char(d as int)]);
    r
}

/// `width` lowercase hex digits of `v` (the low digits, zero-padded).
pub fn hex_fixed(v: u32, width: usize) -> (r: String)
    ensures
        r@ == hex_digits(v as nat, width as nat),
    decreases width,
{
    if width == 0 {
        return String::new();
    }
    let mut s = hex_fixed(v / 16, width - 1);
    s.append(hex_digit(v % 16));
    s
}

#[verifier::external_type_specification]
#[verifier::external_body]
pub struct ExSystemTime(std::time::SystemTime);

/// `std::time::SystemTime::now`: the clock's reading; nothing is claimed of
/// it.
#[verifier::external_body]
fn system_now() -> std::time::SystemTime {
    std::time::SystemTime::now()
}

/// `SystemTime::duration_since(UNIX_EPOCH)`: the time since the Unix epoch,
/// `None` for a time before it; nothing more is claimed.
#[verifier::external_body]
fn since_unix_epoch(t: std::time::SystemTime) -> Option<core::time::Duration> {
    t.duration_since(std::time::UNIX_EPOCH).ok()
}

/// `Duration::as_nanos`: the whole nanoseconds of a duration; nothing is
/// claimed of the value.
#[verifier::external_body]
fn duration_nanos(d: &core::time::Duration) -> u128 {
    d.as_nanos()
}

/// The current time in nanoseconds since the Unix epoch (0 before it).
fn unix_time_nanos() -> u128 {
    match since_unix_epoch(system_now()) {
        Some(d) => duration_nanos(&d),
        None => 0,
    }
}

/// The mock identifier for a time stamp in nanoseconds.
pub fn mock_id_from_nanos(nanos: u128) -> (r: String)
    ensures
        r@ == hex_digits((nanos % 0xFFFFFF) as nat, 6),
        is_mock_id(r@),
{
    let v = (nanos % 0xFFFFFF) as u32;
    let r = hex_fixed(v, 6);
    assert(r@ == hex_digits(v as nat, 6));
    r
}

/// Generate a 6-character mock ID from the clock.
pub fn generate_mock_id() -> (r: String)
    ensures
        is_mock_id(r@),
        r@.len() == 6,
{
    let r = mock_id_from_nanos(unix_time_nanos());
    proof {
        lemma_mock_id_shape(r@);
    }
    r
}

pub proof fn lemma_hex_digits_len(v: nat, width: nat)
    ensures
        hex_digits(v, width).len() == width,
        forall|i: int|
            0 <= i < width ==> ('a' <= #[trigger] hex_digits(v, width)[i] <= 'z') || ('0'
                <= hex_digits(v, width)[i] <= '9'),
    decreases width,
{
    if width > 0 {
        lemma_hex_digits_len(v / 16, (width - 1) as nat);
    }
}

/// Every mock identifier is six characters long and is a valid requirement
/// id: what the mock observer and decider generate passes the implementer's
/// check.
pub proof fn lemma_mock_id_shape(s: Seq<char>)
    requires
        is_mock_id(s),
    ensures
        s.len() == 6,
        valid_requirement_id(s),
{
    let v = choose|v: nat| v < 0xFFFFFF && s == hex_digits(v, 6);
    lemma_hex_digits_len(v, 6);
}


/// The decimal digits of `n`, most significant first (`n.to_string()`).
pub open spec fn decimal_digits(n: nat) -> Seq<char>
    decreases n,
{
    if n < 10 {
        seq![hex_char(n as int)]
    } else {
        decimal_digits(n / 10).push(hex_char((n % 10) as int))
    }
}

/// `n.to_string()`.
pub fn decimal_text(n: u64) -> (r: String)
    ensures
        r@ == decimal_digits(n as nat),
    decreases n,
{
    if n < 10 {
        return owned(hex_digit(n as u32));
    }
    let mut s = decimal_text(n / 10);
    s.append(hex_digit((n % 10) as u32));
    s
}

} // verus!
