use vstd::prelude::*;
use vstd::string::StrSliceExecFns;
use vstd::string::StringExecFns;
use crate::column::TimeUnit;
use crate::error::TransformError;
use crate::intmath::floor_div_i64;
use crate::text::{all_digit_chars, digits_val, parse_i64, parse_i64_chars, parse_u64,
    parse_u64_chars};

verus! {

// ---------------------------------------------------------------------------
// Trusted boundary: what the chrono parsers return
// ---------------------------------------------------------------------------
/// The epoch seconds denoted by an RFC 3339 / ISO 8601 datetime with offset,
/// a function of the text alone.
pub uninterp spec fn rfc3339_epoch(s: Seq<char>) -> Option<i64>;

/// The UTC epoch seconds denoted by a naive datetime under the given
/// strftime-style format, a function of the text and the format alone.
pub uninterp spec fn naive_format_epoch(s: Seq<char>, fmt: Seq<char>) -> Option<i64>;

/// Relies on chrono's `DateTime::parse_from_rfc3339` and
/// `DateTime::timestamp`: parsing consults nothing but the string, and
/// `timestamp` reads the parsed instant back as epoch seconds.
#[verifier::external_body]
fn chrono_rfc3339_epoch(s: &str) -> (r: Option<i64>)
    ensures
        r == rfc3339_epoch(s@),
{
    chrono::DateTime::parse_from_rfc3339(s).ok().map(|d| d.timestamp())
}

/// Relies on chrono's `NaiveDateTime::parse_from_str`, `and_utc` and
/// `timestamp`: parsing consults nothing but the string and the format,
/// and the UTC view of a naive datetime is read back as epoch seconds.
#[verifier::external_body]
fn chrono_naive_epoch(s: &str, fmt: &str) -> (r: Option<i64>)
    ensures
        r == naive_format_epoch(s@, fmt@),
{
    chrono::NaiveDateTime::parse_from_str(s, fmt).ok().map(|d| d.and_utc().timestamp())
}

// ---------------------------------------------------------------------------
// Time-of-day parsing, done natively: HH:MM:SS[.fraction] and HH:MM
// ---------------------------------------------------------------------------
/// Index of the first `:` in the string, if any.
pub open spec fn find_colon(s: Seq<char>) -> Option<int>
    decreases s.len(),
{
    if s.len() == 0 {
        None
    } else if s[0] == ':' {
        Some(0int)
    } else {
        match find_colon(s.skip(1)) {
            Some(i) => Some(i + 1),
            None => None,
        }
    }
}

/// A one- or two-digit clock field.
pub open spec fn field_val(s: Seq<char>) -> Option<u64> {
    if 1 <= s.len() <= 2 && all_digit_chars(s) {
        Some(digits_val(s) as u64)
    } else {
        None
    }
}

/// A seconds field with an optional `.fraction`, whose digits are ignored.
pub open spec fn sec_field_val(s: Seq<char>) -> Option<u64> {
    match crate::text::find_dot(s) {
        None => field_val(s),
        Some(p) => {
            let frac = s.subrange(p + 1, s.len() as int);
            if frac.len() >= 1 && all_digit_chars(frac) {
                field_val(s.subrange(0, p))
            } else {
                None
            }
        },
    }
}

/// Seconds since midnight denoted by a time-of-day string: `H:M:S` with an
/// optional fraction, or `H:M`, fields of one or two digits, hours below 24
/// and minutes and seconds below 60.
pub open spec fn time_only_chars(s: Seq<char>) -> Option<i64> {
    match find_colon(s) {
        None => None,
        Some(p1) => {
            let hpart = s.subrange(0, p1);
            let rest = s.subrange(p1 + 1, s.len() as int);
            match field_val(hpart) {
                None => None,
                Some(h) => if h < 24 {
                    match find_colon(rest) {
                        None => match field_val(rest) {
                            None => None,
                            Some(m) => if m < 60 {
                                Some((h * 3600 + m * 60) as i64)
                            } else {
                                None
                            },
                        },
                        Some(p2) => {
                            let mpart = rest.subrange(0, p2);
                            let spart = rest.subrange(p2 + 1, rest.len() as int);
                            match (field_val(mpart), sec_field_val(spart)) {
                                (Some(m), Some(sec)) => if m < 60 && sec < 60 {
                                    Some((h * 3600 + m * 60 + sec) as i64)
                                } else {
                                    None
                                },
                                _ => None,
                            }
                        },
                    }
                } else {
                    None
                },
            }
        },
    }
}

proof fn lemma_find_colon_at(s: Seq<char>, p: int)
    requires
        0 <= p < s.len(),
        s[p] == ':',
        forall|j: int| 0 <= j < p ==> s[j] != ':',
    ensures
        find_colon(s) == Some(p),
    decreases p,
{
    if p > 0 {
        lemma_find_colon_at(s.skip(1), p - 1);
    }
}

proof fn lemma_find_colon_none(s: Seq<char>)
    requires
        forall|j: int| 0 <= j < s.len() ==> s[j] != ':',
    ensures
        find_colon(s) == None::<int>,
    decreases s.len(),
{
    if s.len() > 0 {
        lemma_find_colon_none(s.skip(1));
    }
}

/// Index of the first `:`, scanning left to right.
fn find_colon_exec(s: &str) -> (r: Option<usize>)
    ensures
        match r {
            Some(p) => p < s@.len() && find_colon(s@) == Some(p as int),
            None => find_colon(s@) == None::<int>,
        },
{
    let n = s.unicode_len();
    for i in 0..n
        invariant
            n == s@.len(),
            forall|j: int| 0 <= j < i ==> s@[j] != ':',
    {
        if s.get_char(i) == ':' {
            proof {
                lemma_find_colon_at(s@, i as int);
            }
            return Some(i);
        }
    }
    proof {
        lemma_find_colon_none(s@);
    }
    None
}

fn parse_field(s: &str) -> (r: Option<u64>)
    ensures
        r == field_val(s@),
        r matches Some(v) ==> v <= 99,
{
    let n = s.unicode_len();
    if n < 1 || n > 2 {
        return None;
    }
    proof {
        if all_digit_chars(s@) {
            assert(crate::text::is_digit_char(s@[s@.len() - 1]));
            assert(s@.last() == s@[s@.len() - 1]);
            assert(crate::text::digit_val(s@.last()) <= 9);
            assert(digits_val(s@) == digits_val(s@.drop_last()) * 10 + crate::text::digit_val(
                s@.last(),
            ));
            if s@.len() == 1 {
                assert(s@.drop_last().len() == 0);
                assert(digits_val(s@.drop_last()) == 0);
            } else {
                let x = s@.drop_last();
                assert(x.len() == 1);
                assert(x.drop_last().len() == 0);
                assert(x.last() == s@[0]);
                assert(crate::text::is_digit_char(s@[0]));
                assert(digits_val(x) == digits_val(x.drop_last()) * 10 + crate::text::digit_val(
                    x.last(),
                ));
                assert(digits_val(x) <= 9);
            }
            assert(digits_val(s@) <= 99);
        }
    }
    parse_u64(s)
}

fn parse_sec_field(s: &str) -> (r: Option<u64>)
    ensures
        r == sec_field_val(s@),
        r matches Some(v) ==> v <= 99,
{
    let n = s.unicode_len();
    match crate::text::find_dot_exec(s) {
        None => parse_field(s),
        Some(p) => {
            let frac = s.substring_char(p + 1, n);
            proof {
                assert(frac@ =~= s@.subrange(p + 1, s@.len() as int));
            }
            let flen = frac.unicode_len();
            if flen == 0 {
                return None;
            }
            if !all_digits_exec(frac) {
                return None;
            }
            let left = s.substring_char(0, p);
            proof {
                assert(left@ =~= s@.subrange(0, p as int));
            }
            parse_field(left)
        },
    }
}

/// Whether every character of the string is a decimal digit.
fn all_digits_exec(s: &str) -> (r: bool)
    ensures
        r == all_digit_chars(s@),
{
    let n = s.unicode_len();
    for i in 0..n
        invariant
            n == s@.len(),
            forall|j: int| 0 <= j < i ==> crate::text::is_digit_char(#[trigger] s@[j]),
    {
        let c = s.get_char(i) as u32;
        if c < 48 || c > 57 {
            assert(!crate::text::is_digit_char(s@[i as int]));
            return false;
        }
    }
    true
}

/// Parses a time-of-day string as seconds since midnight of a fixed
/// reference date, so that equal clock times always parse equal.
pub fn parse_time_only(s: &str) -> (r: Option<i64>)
    ensures
        r == time_only_chars(s@),
{
    let n = s.unicode_len();
    let p1 = match find_colon_exec(s) {
        Some(p) => p,
        None => {
            return None;
        },
    };
    let hpart = s.substring_char(0, p1);
    let rest = s.substring_char(p1 + 1, n);
    proof {
        assert(hpart@ =~= s@.subrange(0, p1 as int));
        assert(rest@ =~= s@.subrange(p1 + 1, s@.len() as int));
    }
    let h = match parse_field(hpart) {
        Some(h) => h,
        None => {
            return None;
        },
    };
    if h >= 24 {
        return None;
    }
    match find_colon_exec(rest) {
        None => {
            match parse_field(rest) {
                Some(m) => if m < 60 {
                    Some((h * 3600 + m * 60) as i64)
                } else {
                    None
                },
                None => None,
            }
        },
        Some(p2) => {
            let rlen = rest.unicode_len();
            let mpart = rest.substring_char(0, p2);
            let spart = rest.substring_char(p2 + 1, rlen);
            proof {
                assert(mpart@ =~= rest@.subrange(0, p2 as int));
                assert(spart@ =~= rest@.subrange(p2 + 1, rest@.len() as int));
            }
            match (parse_field(mpart), parse_sec_field(spart)) {
                (Some(m), Some(sec)) => if m < 60 && sec < 60 {
                    Some((h * 3600 + m * 60 + sec) as i64)
                } else {
                    None
                },
                _ => None,
            }
        },
    }
}

// ---------------------------------------------------------------------------
// The full resolution chain
// ---------------------------------------------------------------------------
/// Whether the string is empty or holds only whitespace.
pub open spec fn is_blank(s: Seq<char>) -> bool {
    forall|i: int|
        0 <= i < s.len() ==> (s[i] == ' ' || s[i] == '\t' || s[i] == '\n' || s[i] == '\r')
}

fn is_blank_exec(s: &str) -> (r: bool)
    ensures
        r == is_blank(s@),
{
    let n = s.unicode_len();
    for i in 0..n
        invariant
            n == s@.len(),
            forall|j: int|
                0 <= j < i ==> (s@[j] == ' ' || s@[j] == '\t' || s@[j] == '\n' || s@[j] == '\r'),
    {
        let c = s.get_char(i);
        if !(c == ' ' || c == '\t' || c == '\n' || c == '\r') {
            return false;
        }
    }
    true
}

/// The canonical interpretation of a textual cell as epoch seconds (or
/// seconds since midnight for time-only cells), first match winning:
/// integer literal, RFC 3339, naive datetime with a space or a `T`
/// separator (optional fraction), then time of day.
pub open spec fn ts_parse(s: Seq<char>) -> Option<i64> {
    if is_blank(s) {
        None
    } else if parse_i64_chars(s) is Some {
        parse_i64_chars(s)
    } else if rfc3339_epoch(s) is Some {
        rfc3339_epoch(s)
    } else if naive_format_epoch(s, "%Y-%m-%d %H:%M:%S%.f"@) is Some {
        naive_format_epoch(s, "%Y-%m-%d %H:%M:%S%.f"@)
    } else if naive_format_epoch(s, "%Y-%m-%dT%H:%M:%S%.f"@) is Some {
        naive_format_epoch(s, "%Y-%m-%dT%H:%M:%S%.f"@)
    } else {
        time_only_chars(s)
    }
}

/// The formats the resolution chain attempts, carried by parse errors.
fn attempted_formats() -> (r: Vec<String>)
    ensures
        r@.len() > 0,
{
    let mut v: Vec<String> = Vec::new();
    v.push(String::from_str("unix epoch seconds"));
    v.push(String::from_str("RFC 3339"));
    v.push(String::from_str("%Y-%m-%d %H:%M:%S%.f"));
    v.push(String::from_str("%Y-%m-%dT%H:%M:%S%.f"));
    v.push(String::from_str("HH:MM[:SS[.fff]]"));
    v
}

/// The duration forms, carried by duration parse errors.
pub(crate) fn duration_formats() -> (r: Vec<String>)
    ensures
        r@.len() > 0,
{
    let mut v: Vec<String> = Vec::new();
    v.push(String::from_str("seconds"));
    v.push(String::from_str("MM:SS"));
    v.push(String::from_str("HH:MM:SS"));
    v
}

/// Parses a textual cell as a timestamp, per the resolution chain of
/// `ts_parse`; a failure carries the offending text and the formats that
/// were attempted.
pub fn parse_timestamp(s: &str) -> (r: Result<i64, TransformError>)
    ensures
        match r {
            Ok(v) => ts_parse(s@) == Some(v),
            Err(e) => e matches TransformError::ParseFailure { value, formats } && value@ == s@
                && formats@.len() > 0 && ts_parse(s@) is None,
        },
{
    if is_blank_exec(s) {
        return Err(TransformError::ParseFailure {
            value: s.to_owned(),
            formats: attempted_formats(),
        });
    }
    if let Some(v) = parse_i64(s) {
        return Ok(v);
    }
    if let Some(v) = chrono_rfc3339_epoch(s) {
        return Ok(v);
    }
    if let Some(v) = chrono_naive_epoch(s, "%Y-%m-%d %H:%M:%S%.f") {
        return Ok(v);
    }
    if let Some(v) = chrono_naive_epoch(s, "%Y-%m-%dT%H:%M:%S%.f") {
        return Ok(v);
    }
    match parse_time_only(s) {
        Some(v) => Ok(v),
        None => Err(TransformError::ParseFailure {
            value: s.to_owned(),
            formats: attempted_formats(),
        }),
    }
}

/// Normalizes a native timestamp cell to whole seconds by dividing out the
/// unit's scale (floor semantics for instants before the epoch).
pub fn ticks_to_seconds(ticks: i64, unit: TimeUnit) -> (r: i64)
    ensures
        r == ticks as int / unit.scale_spec(),
{
    floor_div_i64(ticks, unit.scale())
}

// ---------------------------------------------------------------------------
// Duration strings: seconds, M:S, or H:M:S
// ---------------------------------------------------------------------------
/// Seconds denoted by a duration string: a bare second count, `M:S`, or
/// `H:M:S`, each part a decimal number.
pub open spec fn duration_chars(s: Seq<char>) -> Option<u64> {
    match find_colon(s) {
        None => parse_u64_chars(s),
        Some(p1) => {
            let first = s.subrange(0, p1);
            let rest = s.subrange(p1 + 1, s.len() as int);
            match find_colon(rest) {
                None => match (parse_u64_chars(first), parse_u64_chars(rest)) {
                    (Some(m), Some(sec)) => if m * 60 + sec <= u64::MAX {
                        Some((m * 60 + sec) as u64)
                    } else {
                        None
                    },
                    _ => None,
                },
                Some(p2) => {
                    let mpart = rest.subrange(0, p2);
                    let spart = rest.subrange(p2 + 1, rest.len() as int);
                    if find_colon(spart) is Some {
                        None
                    } else {
                        match (parse_u64_chars(first), parse_u64_chars(mpart), parse_u64_chars(
                            spart,
                        )) {
                            (Some(h), Some(m), Some(sec)) => if h * 3600 + m * 60 + sec
                                <= u64::MAX {
                                Some((h * 3600 + m * 60 + sec) as u64)
                            } else {
                                None
                            },
                            _ => None,
                        }
                    }
                },
            }
        },
    }
}

/// Parses a duration string (`seconds`, `M:S` or `H:M:S`) as seconds.
pub fn parse_duration(s: &str) -> (r: Option<u64>)
    ensures
        r == duration_chars(s@),
{
    let n = s.unicode_len();
    let p1 = match find_colon_exec(s) {
        Some(p) => p,
        None => {
            return parse_u64(s);
        },
    };
    let first = s.substring_char(0, p1);
    let rest = s.substring_char(p1 + 1, n);
    proof {
        assert(first@ =~= s@.subrange(0, p1 as int));
        assert(rest@ =~= s@.subrange(p1 + 1, s@.len() as int));
    }
    let rlen = rest.unicode_len();
    match find_colon_exec(rest) {
        None => {
            match (parse_u64(first), parse_u64(rest)) {
                (Some(m), Some(sec)) => {
                    match m.checked_mul(60) {
                        Some(ms) => match ms.checked_add(sec) {
                            Some(total) => Some(total),
                            None => None,
                        },
                        None => None,
                    }
                },
                _ => None,
            }
        },
        Some(p2) => {
            let mpart = rest.substring_char(0, p2);
            let spart = rest.substring_char(p2 + 1, rlen);
            proof {
                assert(mpart@ =~= rest@.subrange(0, p2 as int));
                assert(spart@ =~= rest@.subrange(p2 + 1, rest@.len() as int));
            }
            if let Some(_) = find_colon_exec(spart) {
                return None;
            }
            match (parse_u64(first), parse_u64(mpart), parse_u64(spart)) {
                (Some(h), Some(m), Some(sec)) => {
                    let hs = match h.checked_mul(3600) {
                        Some(v) => v,
                        None => {
                            return None;
                        },
                    };
                    let ms = match m.checked_mul(60) {
                        Some(v) => v,
                        None => {
                            return None;
                        },
                    };
                    let hm = match hs.checked_add(ms) {
                        Some(v) => v,
                        None => {
                            return None;
                        },
                    };
                    match hm.checked_add(sec) {
                        Some(total) => Some(total),
                        None => None,
                    }
                },
                _ => None,
            }
        },
    }
}

} // verus!
