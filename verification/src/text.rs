use vstd::prelude::*;
use vstd::string::StringExecFns;
use vstd::string::StrSliceExecFns;
use crate::frac::{Frac, Rational};

verus! {

// ---------------------------------------------------------------------------
// Decimal digits: specification
// ---------------------------------------------------------------------------
pub open spec fn is_digit_char(c: char) -> bool {
    48 <= c as u32 <= 57
}

pub open spec fn digit_val(c: char) -> nat {
    (c as u32 - 48) as nat
}

pub open spec fn digit_char(n: nat) -> char {
    if n == 0 {
        '0'
    } else if n == 1 {
        '1'
    } else if n == 2 {
        '2'
    } else if n == 3 {
        '3'
    } else if n == 4 {
        '4'
    } else if n == 5 {
        '5'
    } else if n == 6 {
        '6'
    } else if n == 7 {
        '7'
    } else if n == 8 {
        '8'
    } else {
        '9'
    }
}

/// The decimal rendering of a natural number, most significant digit first.
pub open spec fn dec_digits(n: nat) -> Seq<char>
    decreases n,
{
    if n < 10 {
        seq![digit_char(n)]
    } else {
        dec_digits(n / 10).push(digit_char(n % 10))
    }
}

/// The decimal rendering of an integer, with a leading minus sign when negative.
pub open spec fn dec_str(v: int) -> Seq<char> {
    if v < 0 {
        seq!['-'] + dec_digits((-v) as nat)
    } else {
        dec_digits(v as nat)
    }
}

/// Two-digit zero-padded rendering, for clock fields.
pub open spec fn pad2_chars(n: nat) -> Seq<char> {
    seq![digit_char(n / 10 % 10), digit_char(n % 10)]
}

/// Three-digit zero-padded rendering, for millisecond fields.
pub open spec fn pad3_chars(n: nat) -> Seq<char> {
    seq![digit_char(n / 100 % 10), digit_char(n / 10 % 10), digit_char(n % 10)]
}

/// Exactly `k` zero-padded decimal digits of `v` (its value modulo ten to
/// the `k`).
pub open spec fn pad_digits(v: nat, k: nat) -> Seq<char>
    decreases k,
{
    if k == 0 {
        Seq::empty()
    } else {
        pad_digits(v / 10, (k - 1) as nat).push(digit_char(v % 10))
    }
}

// ---------------------------------------------------------------------------
// Decimal digits: executable rendering
// ---------------------------------------------------------------------------
fn digit_str(d: u128) -> (r: &'static str)
    requires
        d < 10,
    ensures
        r@ =~= seq![digit_char(d as nat)],
{
    proof {
        reveal_strlit("0");
        reveal_strlit("1");
        reveal_strlit("2");
        reveal_strlit("3");
        reveal_strlit("4");
        reveal_strlit("5");
        reveal_strlit("6");
        reveal_strlit("7");
        reveal_strlit("8");
        reveal_strlit("9");
    }
    if d == 0 {
        "0"
    } else if d == 1 {
        "1"
    } else if d == 2 {
        "2"
    } else if d == 3 {
        "3"
    } else if d == 4 {
        "4"
    } else if d == 5 {
        "5"
    } else if d == 6 {
        "6"
    } else if d == 7 {
        "7"
    } else if d == 8 {
        "8"
    } else {
        "9"
    }
}

/// Renders a natural number in decimal.
pub fn dec_u128(n: u128) -> (r: String)
    ensures
        r@ == dec_digits(n as nat),
    decreases n,
{
    if n < 10 {
        String::from_str(digit_str(n))
    } else {
        let mut s = dec_u128(n / 10);
        s.append(digit_str(n % 10));
        s
    }
}

/// Renders a signed integer in decimal.
pub fn dec_i128(v: i128) -> (r: String)
    requires
        v != i128::MIN,
    ensures
        r@ == dec_str(v as int),
{
    proof {
        reveal_strlit("-");
    }
    if v < 0 {
        let mut s = String::from_str("-");
        let digits = dec_u128((-v) as u128);
        s.append(digits.as_str());
        s
    } else {
        dec_u128(v as u128)
    }
}

/// Renders exactly `k` zero-padded decimal digits of `v`.
pub fn pad_digits_u128(v: u128, k: u128) -> (r: String)
    ensures
        r@ == pad_digits(v as nat, k as nat),
    decreases k,
{
    if k == 0 {
        String::new()
    } else {
        let mut s = pad_digits_u128(v / 10, k - 1);
        s.append(digit_str(v % 10));
        s
    }
}

/// Renders a value below 100 as exactly two decimal digits.
pub fn pad2(n: u64) -> (r: String)
    requires
        n < 100,
    ensures
        r@ == pad2_chars(n as nat),
{
    let mut s = String::from_str(digit_str((n / 10) as u128));
    s.append(digit_str((n % 10) as u128));
    s
}

/// Renders a value below 1000 as exactly three decimal digits.
pub fn pad3(n: u64) -> (r: String)
    requires
        n < 1000,
    ensures
        r@ == pad3_chars(n as nat),
{
    let mut s = String::from_str(digit_str((n / 100) as u128));
    s.append(digit_str((n / 10 % 10) as u128));
    s.append(digit_str((n % 10) as u128));
    s
}

// ---------------------------------------------------------------------------
// Unsigned and signed decimal parsing
// ---------------------------------------------------------------------------
pub open spec fn all_digit_chars(s: Seq<char>) -> bool {
    forall|i: int| 0 <= i < s.len() ==> is_digit_char(#[trigger] s[i])
}

/// The value of a digit string, most significant digit first.
pub open spec fn digits_val(s: Seq<char>) -> nat
    decreases s.len(),
{
    if s.len() == 0 {
        0
    } else {
        digits_val(s.drop_last()) * 10 + digit_val(s.last())
    }
}

/// What `str::parse::<u64>` accepts when restricted to bare digit strings:
/// nonempty, all digits, value in range.
pub open spec fn parse_u64_chars(s: Seq<char>) -> Option<u64> {
    if s.len() > 0 && all_digit_chars(s) && digits_val(s) <= u64::MAX {
        Some(digits_val(s) as u64)
    } else {
        None
    }
}

/// A signed decimal integer literal: optional sign, digits, value in range.
pub open spec fn parse_i64_chars(s: Seq<char>) -> Option<i64> {
    if s.len() == 0 {
        None
    } else if s[0] == '-' {
        let rest = s.skip(1);
        if rest.len() > 0 && all_digit_chars(rest) && digits_val(rest) <= 0x8000_0000_0000_0000 {
            Some((-(digits_val(rest) as int)) as i64)
        } else {
            None
        }
    } else if s[0] == '+' {
        let rest = s.skip(1);
        if rest.len() > 0 && all_digit_chars(rest) && digits_val(rest) <= i64::MAX {
            Some(digits_val(rest) as i64)
        } else {
            None
        }
    } else {
        if all_digit_chars(s) && digits_val(s) <= i64::MAX {
            Some(digits_val(s) as i64)
        } else {
            None
        }
    }
}

proof fn lemma_digits_val_push(s: Seq<char>, c: char)
    ensures
        digits_val(s.push(c)) == digits_val(s) * 10 + digit_val(c),
{
    let t = s.push(c);
    assert(t.drop_last() =~= s);
    assert(t.last() == c);
}

/// A digit string is worth at least any of its prefixes.
proof fn lemma_digits_val_prefix(s: Seq<char>, j: int)
    requires
        0 <= j <= s.len(),
    ensures
        digits_val(s.subrange(0, j)) <= digits_val(s),
    decreases s.len() - j,
{
    if j < s.len() {
        let t = s.subrange(0, j + 1);
        assert(t.drop_last() =~= s.subrange(0, j));
        lemma_digits_val_prefix(s, j + 1);
        assert(digits_val(s.subrange(0, j + 1)) == digits_val(s.subrange(0, j)) * 10 + digit_val(
            s[j],
        ));
    } else {
        assert(s.subrange(0, j) =~= s);
    }
}

/// Parses a bare digit string as a `u64`.
pub fn parse_u64(s: &str) -> (r: Option<u64>)
    ensures
        r == parse_u64_chars(s@),
{
    let n = s.unicode_len();
    if n == 0 {
        return None;
    }
    let mut acc: u64 = 0;
    for i in 0..n
        invariant
            n == s@.len(),
            acc == digits_val(s@.subrange(0, i as int)),
            all_digit_chars(s@.subrange(0, i as int)),
    {
        let c = s.get_char(i);
        let cv = c as u32;
        if cv < 48 || cv > 57 {
            assert(!is_digit_char(s@[i as int]));
            return None;
        }
        let d: u64 = (cv - 48) as u64;
        proof {
            assert(s@.subrange(0, i + 1).drop_last() =~= s@.subrange(0, i as int));
            lemma_digits_val_push(s@.subrange(0, i as int), s@[i as int]);
            assert(s@.subrange(0, i + 1) =~= s@.subrange(0, i as int).push(s@[i as int]));
        }
        let shifted = match acc.checked_mul(10) {
            Some(v) => v,
            None => {
                proof {
                    lemma_digits_val_prefix(s@, i + 1);
                }
                return None;
            },
        };
        acc = match shifted.checked_add(d) {
            Some(v) => v,
            None => {
                proof {
                    lemma_digits_val_prefix(s@, i + 1);
                }
                return None;
            },
        };
    }
    assert(s@.subrange(0, n as int) =~= s@);
    Some(acc)
}

/// Parses a signed decimal integer literal as an `i64`, the way the
/// transformation engine recognizes plain epoch-second cells.
pub fn parse_i64(s: &str) -> (r: Option<i64>)
    ensures
        r == parse_i64_chars(s@),
{
    let n = s.unicode_len();
    if n == 0 {
        return None;
    }
    let c0 = s.get_char(0);
    if c0 == '-' {
        let rest = s.substring_char(1, n);
        proof {
            assert(rest@ =~= s@.skip(1));
        }
        match parse_u64(rest) {
            Some(v) => {
                if v == 0x8000_0000_0000_0000 {
                    Some(i64::MIN)
                } else if v < 0x8000_0000_0000_0000 {
                    Some(-(v as i64))
                } else {
                    None
                }
            },
            None => {
                proof {
                    if s@.skip(1).len() > 0 && all_digit_chars(s@.skip(1)) {
                        assert(digits_val(s@.skip(1)) > u64::MAX);
                    }
                }
                None
            },
        }
    } else if c0 == '+' {
        let rest = s.substring_char(1, n);
        proof {
            assert(rest@ =~= s@.skip(1));
        }
        match parse_u64(rest) {
            Some(v) => {
                if v <= i64::MAX as u64 {
                    Some(v as i64)
                } else {
                    None
                }
            },
            None => None,
        }
    } else {
        match parse_u64(s) {
            Some(v) => {
                if v <= i64::MAX as u64 {
                    Some(v as i64)
                } else {
                    None
                }
            },
            None => None,
        }
    }
}

// ---------------------------------------------------------------------------
// Decimal fractions, as written in CSV-style numeric cells
// ---------------------------------------------------------------------------
/// Index of the first `.` in the string, if any.
pub open spec fn find_dot(s: Seq<char>) -> Option<int>
    decreases s.len(),
{
    if s.len() == 0 {
        None
    } else if s[0] == '.' {
        Some(0int)
    } else {
        match find_dot(s.skip(1)) {
            Some(i) => Some(i + 1),
            None => None,
        }
    }
}

pub open spec fn pow10(k: nat) -> nat
    decreases k,
{
    if k == 0 {
        1
    } else {
        10 * pow10((k - 1) as nat)
    }
}

/// An unsigned decimal literal: digits with at most one dot and at least one
/// digit. Its value is mantissa / 10^(number of digits right of the dot).
pub open spec fn parse_udec_chars(s: Seq<char>) -> Option<Rational> {
    match find_dot(s) {
        None => if s.len() > 0 && all_digit_chars(s) {
            Some(Rational { n: digits_val(s) as int, d: 1 })
        } else {
            None
        },
        Some(p) => {
            let left = s.subrange(0, p);
            let right = s.subrange(p + 1, s.len() as int);
            if all_digit_chars(left) && all_digit_chars(right) && left.len() + right.len() > 0 {
                Some(
                    Rational {
                        n: digits_val(left + right) as int,
                        d: pow10(right.len()) as int,
                    },
                )
            } else {
                None
            }
        },
    }
}

/// A signed decimal literal: optional sign, then an unsigned decimal literal.
pub open spec fn parse_dec_chars(s: Seq<char>) -> Option<Rational> {
    if s.len() == 0 {
        None
    } else if s[0] == '-' {
        match parse_udec_chars(s.skip(1)) {
            Some(r) => Some(Rational { n: -r.n, d: r.d }),
            None => None,
        }
    } else if s[0] == '+' {
        parse_udec_chars(s.skip(1))
    } else {
        parse_udec_chars(s)
    }
}

/// Whether the literal's mantissa and scale stay within the bounds the
/// executable parser accepts.
pub open spec fn udec_fits(s: Seq<char>) -> bool {
    match find_dot(s) {
        None => digits_val(s) <= i64::MAX,
        Some(p) => {
            let left = s.subrange(0, p);
            let right = s.subrange(p + 1, s.len() as int);
            digits_val(left + right) <= i64::MAX && right.len() <= 18
        },
    }
}

pub open spec fn dec_fits(s: Seq<char>) -> bool {
    if s.len() == 0 {
        true
    } else if s[0] == '-' || s[0] == '+' {
        udec_fits(s.skip(1))
    } else {
        udec_fits(s)
    }
}

proof fn lemma_pow10_pos(k: nat)
    ensures
        pow10(k) >= 1,
    decreases k,
{
    if k > 0 {
        lemma_pow10_pos((k - 1) as nat);
    }
}

proof fn lemma_pow10_mono(a: nat, b: nat)
    requires
        a <= b,
    ensures
        pow10(a) <= pow10(b),
        pow10(a) >= 1,
    decreases b,
{
    lemma_pow10_pos(a);
    if a < b {
        lemma_pow10_mono(a, (b - 1) as nat);
        lemma_pow10_pos((b - 1) as nat);
    }
}

proof fn lemma_pow10_18()
    ensures
        pow10(18) == 1_000_000_000_000_000_000,
{
    assert(pow10(0) == 1);
    assert(pow10(1) == 10);
    assert(pow10(2) == 100);
    assert(pow10(3) == 1000);
    assert(pow10(4) == 10000);
    assert(pow10(5) == 100000);
    assert(pow10(6) == 1000000);
    assert(pow10(7) == 10000000);
    assert(pow10(8) == 100000000);
    assert(pow10(9) == 1000000000);
    assert(pow10(10) == 10000000000);
    assert(pow10(11) == 100000000000);
    assert(pow10(12) == 1000000000000);
    assert(pow10(13) == 10000000000000);
    assert(pow10(14) == 100000000000000);
    assert(pow10(15) == 1000000000000000);
    assert(pow10(16) == 10000000000000000);
    assert(pow10(17) == 100000000000000000);
    assert(pow10(18) == 1000000000000000000);
}

proof fn lemma_pow10_bound(k: nat)
    requires
        k <= 18,
    ensures
        pow10(k) <= 1_000_000_000_000_000_000,
        pow10(k) >= 1,
{
    lemma_pow10_mono(k, 18);
    lemma_pow10_18();
}

/// First-dot characterization: a scan that saw no dot before `p` and a dot
/// at `p` pins down `find_dot`.
proof fn lemma_find_dot_at(s: Seq<char>, p: int)
    requires
        0 <= p < s.len(),
        s[p] == '.',
        forall|j: int| 0 <= j < p ==> s[j] != '.',
    ensures
        find_dot(s) == Some(p),
    decreases p,
{
    if p == 0 {
    } else {
        lemma_find_dot_at(s.skip(1), p - 1);
    }
}

proof fn lemma_find_dot_none(s: Seq<char>)
    requires
        forall|j: int| 0 <= j < s.len() ==> s[j] != '.',
    ensures
        find_dot(s) == None::<int>,
    decreases s.len(),
{
    if s.len() > 0 {
        lemma_find_dot_none(s.skip(1));
    }
}

/// Executable power of ten.
fn pow10_i128(k: usize) -> (r: i128)
    requires
        k <= 18,
    ensures
        r == pow10(k as nat),
        1 <= r <= 1_000_000_000_000_000_000,
{
    proof {
        lemma_pow10_bound(k as nat);
    }
    let mut acc: i128 = 1;
    let mut j: usize = 0;
    while j < k
        invariant
            j <= k <= 18,
            acc == pow10(j as nat),
        decreases k - j,
    {
        proof {
            lemma_pow10_bound((j + 1) as nat);
        }
        acc = acc * 10;
        j = j + 1;
    }
    acc
}

/// Parses a digit string whose value stays within `i64::MAX`.
fn parse_digits_capped(s: &str) -> (r: Option<u64>)
    ensures
        match r {
            Some(v) => s@.len() > 0 && all_digit_chars(s@) && digits_val(s@) == v && v
                <= i64::MAX,
            None => !(s@.len() > 0 && all_digit_chars(s@) && digits_val(s@) <= i64::MAX),
        },
{
    match parse_u64(s) {
        Some(v) => if v <= i64::MAX as u64 {
            Some(v)
        } else {
            None
        },
        None => None,
    }
}

/// Index of the first `.` in the string, scanning left to right.
pub fn find_dot_exec(s: &str) -> (r: Option<usize>)
    ensures
        match r {
            Some(p) => p < s@.len() && find_dot(s@) == Some(p as int),
            None => find_dot(s@) == None::<int>,
        },
{
    let n = s.unicode_len();
    for i in 0..n
        invariant
            n == s@.len(),
            forall|j: int| 0 <= j < i ==> s@[j] != '.',
    {
        if s.get_char(i) == '.' {
            proof {
                lemma_find_dot_at(s@, i as int);
            }
            return Some(i);
        }
    }
    proof {
        lemma_find_dot_none(s@);
    }
    None
}

/// Parses an unsigned decimal literal into a fraction over a power of ten.
fn parse_ufrac(s: &str) -> (r: Option<Frac>)
    ensures
        match r {
            Some(f) => f.wf() && 0 <= f.num <= i64::MAX && parse_udec_chars(s@) == Some(f@)
                && udec_fits(s@),
            None => parse_udec_chars(s@) is None || !udec_fits(s@),
        },
{
    let n = s.unicode_len();
    match find_dot_exec(s) {
        None => {
            match parse_digits_capped(s) {
                Some(v) => Some(Frac { num: v as i128, den: 1 }),
                None => None,
            }
        },
        Some(p) => {
            let left = s.substring_char(0, p);
            let right = s.substring_char(p + 1, n);
            proof {
                assert(left@ =~= s@.subrange(0, p as int));
                assert(right@ =~= s@.subrange(p + 1, s@.len() as int));
            }
            let rlen = right.unicode_len();
            if rlen > 18 {
                return None;
            }
            let mantissa = String::from_str(left).concat(right);
            proof {
                assert(mantissa@ == left@ + right@);
            }
            match parse_digits_capped(mantissa.as_str()) {
                Some(v) => {
                    proof {
                        let cat = left@ + right@;
                        assert forall|j: int| 0 <= j < left@.len() implies is_digit_char(
                            left@[j],
                        ) by {
                            assert(cat[j] == left@[j]);
                        }
                        assert forall|j: int| 0 <= j < right@.len() implies is_digit_char(
                            right@[j],
                        ) by {
                            assert(cat[left@.len() + j] == right@[j]);
                        }
                    }
                    let den = pow10_i128(rlen);
                    Some(Frac { num: v as i128, den })
                },
                None => {
                    proof {
                        if all_digit_chars(left@ + right@) && left@.len() + right@.len() > 0 {
                            assert((left@ + right@).len() > 0);
                        }
                    }
                    None
                },
            }
        },
    }
}

/// Parses a signed decimal literal, such as a CSV numeric cell, into an
/// exact fraction.
pub fn parse_frac(s: &str) -> (r: Option<Frac>)
    ensures
        match r {
            Some(f) => f.wf() && -0x7FFF_FFFF_FFFF_FFFFi128 <= f.num <= 0x7FFF_FFFF_FFFF_FFFFi128
                && parse_dec_chars(s@) == Some(f@) && dec_fits(s@),
            None => parse_dec_chars(s@) is None || !dec_fits(s@),
        },
{
    let n = s.unicode_len();
    if n == 0 {
        return None;
    }
    let c0 = s.get_char(0);
    if c0 == '-' {
        let rest = s.substring_char(1, n);
        proof {
            assert(rest@ =~= s@.skip(1));
        }
        match parse_ufrac(rest) {
            Some(f) => Some(Frac { num: -f.num, den: f.den }),
            None => None,
        }
    } else if c0 == '+' {
        let rest = s.substring_char(1, n);
        proof {
            assert(rest@ =~= s@.skip(1));
        }
        parse_ufrac(rest)
    } else {
        parse_ufrac(s)
    }
}

// ---------------------------------------------------------------------------
// Small string utilities
// ---------------------------------------------------------------------------
/// Character-for-character equality of two string slices.
pub fn str_eq(a: &str, b: &str) -> (r: bool)
    ensures
        r == (a@ == b@),
{
    let na = a.unicode_len();
    let nb = b.unicode_len();
    if na != nb {
        assert(a@ != b@);
        return false;
    }
    for i in 0..na
        invariant
            na == a@.len(),
            na == b@.len(),
            forall|j: int| 0 <= j < i ==> a@[j] == b@[j],
    {
        if a.get_char(i) != b.get_char(i) {
            return false;
        }
    }
    proof {
        assert(a@ =~= b@);
    }
    true
}

pub open spec fn ends_with_chars(s: Seq<char>, suffix: Seq<char>) -> bool {
    s.len() >= suffix.len() && s.subrange(s.len() - suffix.len(), s.len() as int) == suffix
}

/// Whether the string ends with the given suffix.
pub fn str_ends_with(s: &str, suffix: &str) -> (r: bool)
    ensures
        r == ends_with_chars(s@, suffix@),
{
    let n = s.unicode_len();
    let m = suffix.unicode_len();
    if n < m {
        return false;
    }
    let tail = s.substring_char(n - m, n);
    proof {
        assert(tail@ =~= s@.subrange(s@.len() - suffix@.len(), s@.len() as int));
    }
    str_eq(tail, suffix)
}

/// The string with every trailing copy of the suffix removed.
pub open spec fn strip_suffix_all(s: Seq<char>, suffix: Seq<char>) -> Seq<char>
    decreases s.len(),
{
    if suffix.len() > 0 && ends_with_chars(s, suffix) {
        strip_suffix_all(s.subrange(0, s.len() - suffix.len()), suffix)
    } else {
        s
    }
}

/// Removes every trailing copy of the suffix, like `str::trim_end_matches`.
pub fn str_strip_suffix_all(s: &str, suffix: &str) -> (r: String)
    requires
        suffix@.len() > 0,
    ensures
        r@ == strip_suffix_all(s@, suffix@),
    decreases s@.len(),
{
    let n = s.unicode_len();
    let m = suffix.unicode_len();
    if str_ends_with(s, suffix) {
        let head = s.substring_char(0, n - m);
        proof {
            assert(head@ =~= s@.subrange(0, s@.len() - suffix@.len()));
        }
        str_strip_suffix_all(head, suffix)
    } else {
        String::from_str(s)
    }
}

pub open spec fn is_space_char(c: char) -> bool {
    c == ' ' || c == '\t' || c == '\n' || c == '\r'
}

/// The string without leading whitespace.
pub open spec fn trim_front(s: Seq<char>) -> Seq<char>
    decreases s.len(),
{
    if s.len() > 0 && is_space_char(s[0]) {
        trim_front(s.skip(1))
    } else {
        s
    }
}

/// The string without trailing whitespace.
pub open spec fn trim_back(s: Seq<char>) -> Seq<char>
    decreases s.len(),
{
    if s.len() > 0 && is_space_char(s.last()) {
        trim_back(s.drop_last())
    } else {
        s
    }
}

/// The string without leading or trailing whitespace.
pub open spec fn trim_chars(s: Seq<char>) -> Seq<char> {
    trim_back(trim_front(s))
}

proof fn lemma_trim_front_at(s: Seq<char>, a: int)
    requires
        0 <= a <= s.len(),
        forall|j: int| 0 <= j < a ==> is_space_char(#[trigger] s[j]),
        a < s.len() ==> !is_space_char(s[a]),
    ensures
        trim_front(s) == s.subrange(a, s.len() as int),
    decreases a,
{
    if a == 0 {
        if s.len() > 0 && is_space_char(s[0]) {
            assert(false);
        }
        assert(s.subrange(0, s.len() as int) =~= s);
    } else {
        let t = s.skip(1);
        lemma_trim_front_at(t, a - 1);
        assert(t.subrange(a - 1, t.len() as int) =~= s.subrange(a, s.len() as int));
    }
}

proof fn lemma_trim_back_at(t: Seq<char>, b: int)
    requires
        0 <= b <= t.len(),
        forall|j: int| b <= j < t.len() ==> is_space_char(#[trigger] t[j]),
        b > 0 ==> !is_space_char(t[b - 1]),
    ensures
        trim_back(t) == t.subrange(0, b),
    decreases t.len(),
{
    if b == t.len() {
        if t.len() > 0 && is_space_char(t.last()) {
            assert(false);
        }
        assert(t.subrange(0, b) =~= t);
    } else {
        let u = t.drop_last();
        lemma_trim_back_at(u, b);
        assert(u.subrange(0, b) =~= t.subrange(0, b));
    }
}

/// Removes leading and trailing whitespace.
pub fn str_trim(s: &str) -> (r: String)
    ensures
        r@ == trim_chars(s@),
{
    let n = s.unicode_len();
    let mut a: usize = 0;
    while a < n
        invariant
            a <= n,
            n == s@.len(),
            forall|j: int| 0 <= j < a ==> is_space_char(#[trigger] s@[j]),
        ensures
            a <= n,
            forall|j: int| 0 <= j < a ==> is_space_char(#[trigger] s@[j]),
            a < n ==> !is_space_char(s@[a as int]),
        decreases n - a,
    {
        let c = s.get_char(a);
        if !(c == ' ' || c == '\t' || c == '\n' || c == '\r') {
            break ;
        }
        a = a + 1;
    }
    proof {
        lemma_trim_front_at(s@, a as int);
    }
    let mut b: usize = n;
    while b > a
        invariant
            a <= b <= n,
            n == s@.len(),
            forall|j: int| b <= j < n ==> is_space_char(#[trigger] s@[j]),
        ensures
            a <= b <= n,
            forall|j: int| b <= j < n ==> is_space_char(#[trigger] s@[j]),
            b > a ==> !is_space_char(s@[b - 1]),
        decreases b,
    {
        let c = s.get_char(b - 1);
        if !(c == ' ' || c == '\t' || c == '\n' || c == '\r') {
            break ;
        }
        b = b - 1;
    }
    let mid = s.substring_char(a, b);
    proof {
        let front = s@.subrange(a as int, s@.len() as int);
        lemma_trim_back_at(front, b - a);
        assert(front.subrange(0, b - a) =~= s@.subrange(a as int, b as int));
        assert(mid@ =~= s@.subrange(a as int, b as int));
    }
    String::from_str(mid)
}

/// Whether the string spells `null`, in any letter case.
pub open spec fn is_null_token(s: Seq<char>) -> bool {
    s.len() == 4 && (s[0] == 'N' || s[0] == 'n') && (s[1] == 'U' || s[1] == 'u') && (s[2] == 'L'
        || s[2] == 'l') && (s[3] == 'L' || s[3] == 'l')
}

/// Tests for the `null` spelling, in any letter case.
pub fn str_is_null_token(s: &str) -> (r: bool)
    ensures
        r == is_null_token(s@),
{
    let n = s.unicode_len();
    if n != 4 {
        return false;
    }
    let c0 = s.get_char(0);
    let c1 = s.get_char(1);
    let c2 = s.get_char(2);
    let c3 = s.get_char(3);
    (c0 == 'N' || c0 == 'n') && (c1 == 'U' || c1 == 'u') && (c2 == 'L' || c2 == 'l') && (c3 == 'L'
        || c3 == 'l')
}

/// The concatenation of the parts with the separator between them.
pub open spec fn join_chars(parts: Seq<Seq<char>>, sep: Seq<char>) -> Seq<char>
    decreases parts.len(),
{
    if parts.len() == 0 {
        Seq::empty()
    } else if parts.len() == 1 {
        parts[0]
    } else {
        join_chars(parts.drop_last(), sep) + sep + parts.last()
    }
}

/// Joins strings with a separator.
pub fn join_strings(parts: &Vec<String>, sep: &str) -> (r: String)
    ensures
        r@ == join_chars(parts@.map_values(|p: String| p@), sep@),
{
    let ghost views = parts@.map_values(|p: String| p@);
    let mut out = String::new();
    let n = parts.len();
    for i in 0..n
        invariant
            n == parts@.len(),
            views == parts@.map_values(|p: String| p@),
            out@ == join_chars(views.subrange(0, i as int), sep@),
    {
        if i > 0 {
            out.append(sep);
        }
        out.append(parts[i].as_str());
        proof {
            let pref = views.subrange(0, i + 1);
            assert(pref.drop_last() =~= views.subrange(0, i as int));
            assert(pref.last() == views[i as int]);
            if i == 0 {
                assert(out@ == join_chars(pref, sep@));
            }
        }
    }
    proof {
        assert(views.subrange(0, n as int) =~= views);
    }
    out
}

} // verus!
