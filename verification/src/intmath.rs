use vstd::arithmetic::div_mod::{lemma_fundamental_div_mod, lemma_fundamental_div_mod_converse};
use vstd::prelude::*;

verus! {

/// Floor (Euclidean) division of a signed value by a positive divisor,
/// matching the `/` operator of specification integers.
pub fn floor_div_i64(a: i64, b: i64) -> (r: i64)
    requires
        b > 0,
    ensures
        r == a as int / b as int,
{
    if a >= 0 {
        let q = (a as u64) / (b as u64);
        q as i64
    } else {
        let mag = (-(a as i128)) as u128;
        let q = mag / (b as u128);
        let rem = mag % (b as u128);
        proof {
            lemma_fundamental_div_mod(mag as int, b as int);
            assert(mag == b as int * q + rem);
            if rem == 0 {
                assert(a as int == (-(q as int)) * (b as int) + 0) by (nonlinear_arith)
                    requires
                        b as int * (q as int) + (rem as int) == mag as int,
                        rem == 0,
                        a as int == -(mag as int),
                ;
                lemma_fundamental_div_mod_converse(a as int, b as int, -(q as int), 0);
            } else {
                assert(q < 0x8000_0000_0000_0000u128) by (nonlinear_arith)
                    requires
                        b as int * q + rem == mag,
                        mag <= 0x8000_0000_0000_0000u128,
                        rem > 0,
                        b >= 1,
                ;
                assert(a as int == (-(q as int) - 1) * (b as int) + (b as int - rem as int))
                    by (nonlinear_arith)
                    requires
                        b as int * (q as int) + (rem as int) == mag as int,
                        a as int == -(mag as int),
                ;
                lemma_fundamental_div_mod_converse(
                    a as int,
                    b as int,
                    -(q as int) - 1,
                    b as int - rem as int,
                );
            }
        }
        if rem == 0 {
            (-(q as i128)) as i64
        } else {
            (-(q as i128) - 1) as i64
        }
    }
}

/// Euclidean remainder of a signed value by a positive divisor, matching
/// the `%` operator of specification integers.
pub fn emod_i64(a: i64, b: i64) -> (r: i64)
    requires
        b > 0,
    ensures
        r == a as int % b as int,
        0 <= r < b,
{
    let q = floor_div_i64(a, b);
    proof {
        lemma_fundamental_div_mod(a as int, b as int);
        vstd::arithmetic::div_mod::lemma_mod_bound(a as int, b as int);
        assert((q as int) * (b as int) == a as int - (a as int % b as int)) by (nonlinear_arith)
            requires
                a as int == (b as int) * (a as int / b as int) + (a as int % b as int),
                q == a as int / b as int,
        ;
    }
    let r128 = (a as i128) - (q as i128) * (b as i128);
    r128 as i64
}

/// The greatest common divisor, by Euclid's recursion.
pub open spec fn gcd(a: nat, b: nat) -> nat
    decreases b,
{
    if b == 0 {
        a
    } else {
        gcd(b, a % b)
    }
}

/// The divisor bounds the greatest common divisor.
pub proof fn lemma_gcd_le(a: nat, b: nat)
    requires
        b >= 1,
    ensures
        1 <= gcd(a, b) <= b,
    decreases b,
{
    if a % b == 0 {
        assert(gcd(a, b) == gcd(b, 0));
    } else {
        lemma_gcd_le(b, a % b);
    }
}

/// Computes the greatest common divisor.
pub fn gcd_u128(a0: u128, b0: u128) -> (r: u128)
    ensures
        r == gcd(a0 as nat, b0 as nat),
        b0 > 0 ==> r >= 1,
{
    let mut a = a0;
    let mut b = b0;
    while b != 0
        invariant
            gcd(a as nat, b as nat) == gcd(a0 as nat, b0 as nat),
            b0 > 0 ==> (a > 0 || b > 0),
        decreases b,
    {
        let t = a % b;
        a = b;
        b = t;
    }
    a
}

/// The power `base^exp`.
pub open spec fn pow_nat(base: nat, exp: nat) -> nat
    decreases exp,
{
    if exp == 0 {
        1
    } else {
        base * pow_nat(base, (exp - 1) as nat)
    }
}

pub proof fn lemma_pow_nat_pos(base: nat, exp: nat)
    requires
        base >= 1,
    ensures
        pow_nat(base, exp) >= 1,
    decreases exp,
{
    if exp > 0 {
        lemma_pow_nat_pos(base, (exp - 1) as nat);
        assert(base * pow_nat(base, (exp - 1) as nat) >= 1) by (nonlinear_arith)
            requires
                base >= 1,
                pow_nat(base, (exp - 1) as nat) >= 1,
        ;
    }
}

/// A power with base at least two exceeds its exponent.
pub proof fn lemma_pow_nat_gt_exp(base: nat, exp: nat)
    requires
        base >= 2,
    ensures
        pow_nat(base, exp) > exp,
    decreases exp,
{
    if exp > 0 {
        lemma_pow_nat_gt_exp(base, (exp - 1) as nat);
        assert(base * pow_nat(base, (exp - 1) as nat) >= 2 * pow_nat(base, (exp - 1) as nat))
            by (nonlinear_arith)
            requires
                base >= 2,
                pow_nat(base, (exp - 1) as nat) >= 1,
        ;
    }
}

pub proof fn lemma_pow_nat_mono_exp(base: nat, e1: nat, e2: nat)
    requires
        base >= 1,
        e1 <= e2,
    ensures
        pow_nat(base, e1) <= pow_nat(base, e2),
    decreases e2,
{
    lemma_pow_nat_pos(base, e1);
    if e1 < e2 {
        lemma_pow_nat_mono_exp(base, e1, (e2 - 1) as nat);
        assert(pow_nat(base, (e2 - 1) as nat) <= base * pow_nat(base, (e2 - 1) as nat))
            by (nonlinear_arith)
            requires
                base >= 1,
                pow_nat(base, (e2 - 1) as nat) >= 0,
        ;
        lemma_pow_nat_pos(base, (e2 - 1) as nat);
    }
}

/// Computes `base^exp`, reporting when it leaves the machine range.
pub fn pow_u128_checked(base: u128, exp: u128) -> (r: Option<u128>)
    requires
        base >= 1,
    ensures
        match r {
            Some(v) => v == pow_nat(base as nat, exp as nat),
            None => pow_nat(base as nat, exp as nat) > u128::MAX,
        },
{
    let mut acc: u128 = 1;
    let mut i: u128 = 0;
    while i < exp
        invariant
            base >= 1,
            i <= exp,
            acc == pow_nat(base as nat, i as nat),
        decreases exp - i,
    {
        acc = match acc.checked_mul(base) {
            Some(v) => v,
            None => {
                proof {
                    assert(pow_nat(base as nat, (i + 1) as nat) == base as nat * pow_nat(
                        base as nat,
                        i as nat,
                    ));
                    lemma_pow_nat_mono_exp(base as nat, (i + 1) as nat, exp as nat);
                }
                return None;
            },
        };
        i = i + 1;
    }
    Some(acc)
}

/// How many times `p` divides `d`.
pub open spec fn count_factor(d: nat, p: nat) -> nat
    decreases d,
    via count_factor_decreases
{
    if d > 0 && p > 1 && d % p == 0 {
        1 + count_factor(d / p, p)
    } else {
        0
    }
}

#[via_fn]
proof fn count_factor_decreases(d: nat, p: nat) {
    if d > 0 && p > 1 && d % p == 0 {
        vstd::arithmetic::div_mod::lemma_div_is_strictly_smaller(d as int, p as int);
    }
}

/// Whether `r` is the floor of the square root of `x`.
pub open spec fn is_floor_sqrt(x: int, r: int) -> bool {
    0 <= r && r * r <= x && x < (r + 1) * (r + 1)
}

/// The floor of the square root of a non-negative integer.
pub open spec fn floor_sqrt(x: int) -> int {
    choose|r: int| is_floor_sqrt(x, r)
}

/// There is only one floor square root, so any witness pins `floor_sqrt`.
pub proof fn lemma_floor_sqrt_unique(x: int, r: int)
    requires
        is_floor_sqrt(x, r),
    ensures
        floor_sqrt(x) == r,
{
    assert(exists|q: int| is_floor_sqrt(x, q));
    let q = floor_sqrt(x);
    assert(is_floor_sqrt(x, q));
    assert(q == r) by (nonlinear_arith)
        requires
            0 <= r,
            0 <= q,
            r * r <= x,
            x < (r + 1) * (r + 1),
            q * q <= x,
            x < (q + 1) * (q + 1),
    ;
}

/// Computes the floor of the square root by bisection.
pub fn isqrt_u128(x: u128) -> (r: u64)
    ensures
        is_floor_sqrt(x as int, r as int),
        floor_sqrt(x as int) == r as int,
{
    let mut lo: u128 = 0;
    let mut hi: u128 = 0x1_0000_0000_0000_0000;
    proof {
        assert((0x1_0000_0000_0000_0000 as int) * (0x1_0000_0000_0000_0000 as int) > u128::MAX);
    }
    while hi - lo > 1
        invariant
            lo < hi <= 0x1_0000_0000_0000_0000,
            (lo as int) * (lo as int) <= x as int,
            (x as int) < (hi as int) * (hi as int),
        decreases hi - lo,
    {
        let mid = lo + (hi - lo) / 2;
        proof {
            assert(lo < mid < hi);
            assert((mid as int) * (mid as int) <= (0x1_0000_0000_0000_0000 as int) * (
            0x1_0000_0000_0000_0000 as int) - 1) by (nonlinear_arith)
                requires
                    0 <= mid as int <= 0x1_0000_0000_0000_0000 - 1,
            ;
        }
        if mid * mid <= x {
            lo = mid;
        } else {
            hi = mid;
        }
    }
    proof {
        assert(hi == lo + 1);
        lemma_floor_sqrt_unique(x as int, lo as int);
    }
    lo as u64
}

} // verus!
