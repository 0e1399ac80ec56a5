use vstd::prelude::*;

verus! {

/// The mathematical value of a fraction: a pair of unbounded integers.
/// Well-formed values keep the denominator positive.
pub struct Rational {
    pub n: int,
    pub d: int,
}

pub open spec fn rat_wf(a: Rational) -> bool {
    a.d > 0
}

/// Equality of the represented rational numbers (cross multiplication).
pub open spec fn rat_eq(a: Rational, b: Rational) -> bool {
    a.n * b.d == b.n * a.d
}

pub open spec fn rat_of_int(v: int) -> Rational {
    Rational { n: v, d: 1 }
}

pub open spec fn rat_add(a: Rational, b: Rational) -> Rational {
    Rational { n: a.n * b.d + b.n * a.d, d: a.d * b.d }
}

pub open spec fn rat_sub(a: Rational, b: Rational) -> Rational {
    Rational { n: a.n * b.d - b.n * a.d, d: a.d * b.d }
}

pub open spec fn rat_mul(a: Rational, b: Rational) -> Rational {
    Rational { n: a.n * b.n, d: a.d * b.d }
}

/// Division, with the sign moved into the numerator so that a
/// well-formed divisor with a nonzero numerator yields a well-formed result.
pub open spec fn rat_div(a: Rational, b: Rational) -> Rational {
    if b.n >= 0 {
        Rational { n: a.n * b.d, d: a.d * b.n }
    } else {
        Rational { n: -(a.n * b.d), d: -(a.d * b.n) }
    }
}

pub open spec fn rat_is_zero(a: Rational) -> bool {
    a.n == 0
}

pub proof fn lemma_rat_add_wf(a: Rational, b: Rational)
    requires
        rat_wf(a),
        rat_wf(b),
    ensures
        rat_wf(rat_add(a, b)),
        rat_wf(rat_sub(a, b)),
        rat_wf(rat_mul(a, b)),
{
    assert(a.d * b.d > 0) by (nonlinear_arith)
        requires
            a.d > 0,
            b.d > 0,
    ;
}

pub proof fn lemma_rat_div_wf(a: Rational, b: Rational)
    requires
        rat_wf(a),
        rat_wf(b),
        !rat_is_zero(b),
    ensures
        rat_wf(rat_div(a, b)),
{
    if b.n >= 0 {
        assert(a.d * b.n > 0) by (nonlinear_arith)
            requires
                a.d > 0,
                b.n > 0,
        ;
    } else {
        assert(-(a.d * b.n) > 0) by (nonlinear_arith)
            requires
                a.d > 0,
                b.n < 0,
        ;
    }
}

pub proof fn lemma_rat_eq_trans(a: Rational, b: Rational, c: Rational)
    requires
        rat_wf(a),
        rat_wf(b),
        rat_wf(c),
        rat_eq(a, b),
        rat_eq(b, c),
    ensures
        rat_eq(a, c),
{
    assert(a.n * c.d == c.n * a.d) by (nonlinear_arith)
        requires
            a.d > 0,
            b.d > 0,
            c.d > 0,
            a.n * b.d == b.n * a.d,
            b.n * c.d == c.n * b.d,
    ;
}

/// Replacing one addend by an equal rational keeps the sum equal.
#[verifier::rlimit(50)]
pub proof fn lemma_rat_add_congruence(a: Rational, a2: Rational, b: Rational)
    requires
        rat_wf(a),
        rat_wf(a2),
        rat_wf(b),
        rat_eq(a, a2),
    ensures
        rat_eq(rat_add(a, b), rat_add(a2, b)),
{
    let lhs = (a.n * b.d + b.n * a.d) * (a2.d * b.d);
    let rhs = (a2.n * b.d + b.n * a2.d) * (a.d * b.d);
    assert(lhs == (a.n * a2.d) * (b.d * b.d) + (b.n * (a.d * a2.d)) * b.d) by (nonlinear_arith)
        requires
            lhs == (a.n * b.d + b.n * a.d) * (a2.d * b.d),
    ;
    assert(rhs == (a2.n * a.d) * (b.d * b.d) + (b.n * (a.d * a2.d)) * b.d) by (nonlinear_arith)
        requires
            rhs == (a2.n * b.d + b.n * a2.d) * (a.d * b.d),
    ;
}

/// Replacing one factor by an equal rational keeps the product equal.
#[verifier::rlimit(50)]
pub proof fn lemma_rat_mul_congruence(a: Rational, a2: Rational, b: Rational)
    requires
        rat_wf(a),
        rat_wf(a2),
        rat_wf(b),
        rat_eq(a, a2),
    ensures
        rat_eq(rat_mul(a, b), rat_mul(a2, b)),
{
    let lhs = (a.n * b.n) * (a2.d * b.d);
    let rhs = (a2.n * b.n) * (a.d * b.d);
    assert(lhs == (a.n * a2.d) * (b.n * b.d)) by (nonlinear_arith)
        requires
            lhs == (a.n * b.n) * (a2.d * b.d),
    ;
    assert(rhs == (a2.n * a.d) * (b.n * b.d)) by (nonlinear_arith)
        requires
            rhs == (a2.n * b.n) * (a.d * b.d),
    ;
}

/// Multiplication distributes over addition.
#[verifier::rlimit(50)]
pub proof fn lemma_rat_mul_distrib(a: Rational, b: Rational, c: Rational)
    requires
        rat_wf(a),
        rat_wf(b),
        rat_wf(c),
    ensures
        rat_eq(rat_add(rat_mul(a, c), rat_mul(b, c)), rat_mul(rat_add(a, b), c)),
{
    let s = rat_add(rat_mul(a, c), rat_mul(b, c));
    let t = rat_mul(rat_add(a, b), c);
    let u = a.n * b.d + b.n * a.d;
    assert((a.n * c.n) * (b.d * c.d) == (c.n * c.d) * (a.n * b.d)) by (nonlinear_arith);
    assert((b.n * c.n) * (a.d * c.d) == (c.n * c.d) * (b.n * a.d)) by (nonlinear_arith);
    assert((c.n * c.d) * (a.n * b.d) + (c.n * c.d) * (b.n * a.d) == (c.n * c.d) * u)
        by (nonlinear_arith)
        requires
            u == a.n * b.d + b.n * a.d,
    ;
    assert(s.n == (c.n * c.d) * u);
    assert(s.n * t.d == t.n * s.d) by (nonlinear_arith)
        requires
            s.n == (c.n * c.d) * u,
            s.d == (a.d * c.d) * (b.d * c.d),
            t.n == u * c.n,
            t.d == (a.d * b.d) * c.d,
    ;
}

/// The reciprocal of a nonzero rational, with the sign moved into the
/// numerator.
pub open spec fn rat_inv(t: Rational) -> Rational {
    if t.n >= 0 {
        Rational { n: t.d, d: t.n }
    } else {
        Rational { n: -t.d, d: -t.n }
    }
}

/// Dividing is multiplying by the reciprocal, pair for pair.
pub proof fn lemma_rat_div_as_mul(a: Rational, t: Rational)
    ensures
        rat_div(a, t) == rat_mul(a, rat_inv(t)),
        !rat_is_zero(t) && rat_wf(t) ==> rat_wf(rat_inv(t)),
{
    if t.n < 0 {
        assert(a.n * (-t.d) == -(a.n * t.d)) by (nonlinear_arith);
        assert(a.d * (-t.n) == -(a.d * t.n)) by (nonlinear_arith);
    }
}

/// Differences telescope: (b - c) + (a - b) equals a - c.
pub proof fn lemma_rat_telescope(a: Rational, b: Rational, c: Rational)
    requires
        rat_wf(a),
        rat_wf(b),
        rat_wf(c),
    ensures
        rat_eq(rat_add(rat_sub(b, c), rat_sub(a, b)), rat_sub(a, c)),
{
    let s = rat_add(rat_sub(b, c), rat_sub(a, b));
    let t = rat_sub(a, c);
    let inner = (b.n * c.d - c.n * b.d) * a.d + (a.n * b.d - b.n * a.d) * c.d;
    assert(inner == b.d * t.n) by (nonlinear_arith)
        requires
            t.n == a.n * c.d - c.n * a.d,
            inner == (b.n * c.d - c.n * b.d) * a.d + (a.n * b.d - b.n * a.d) * c.d,
    ;
    assert(s.n == b.d * inner) by (nonlinear_arith)
        requires
            s.n == (b.n * c.d - c.n * b.d) * (a.d * b.d) + (a.n * b.d - b.n * a.d) * (b.d * c.d),
            inner == (b.n * c.d - c.n * b.d) * a.d + (a.n * b.d - b.n * a.d) * c.d,
    ;
    assert(s.n * t.d == t.n * s.d) by (nonlinear_arith)
        requires
            s.n == b.d * (b.d * t.n),
            s.d == (b.d * c.d) * (a.d * b.d),
            t.d == a.d * c.d,
    ;
}

/// Whether every intermediate of the fraction addition fits the
/// machine integers the engine computes with.
pub open spec fn rat_add_fits(a: Rational, b: Rational) -> bool {
    &&& i128::MIN <= a.n * b.d <= i128::MAX
    &&& i128::MIN <= b.n * a.d <= i128::MAX
    &&& i128::MIN <= a.n * b.d + b.n * a.d <= i128::MAX
    &&& a.d * b.d <= i128::MAX
}

pub open spec fn rat_sub_fits(a: Rational, b: Rational) -> bool {
    &&& i128::MIN <= a.n * b.d <= i128::MAX
    &&& i128::MIN <= b.n * a.d <= i128::MAX
    &&& i128::MIN <= a.n * b.d - b.n * a.d <= i128::MAX
    &&& a.d * b.d <= i128::MAX
}

pub open spec fn rat_mul_fits(a: Rational, b: Rational) -> bool {
    &&& i128::MIN <= a.n * b.n <= i128::MAX
    &&& a.d * b.d <= i128::MAX
}

pub open spec fn rat_div_fits(a: Rational, b: Rational) -> bool {
    &&& i128::MIN < a.n * b.d <= i128::MAX
    &&& i128::MIN < a.d * b.n <= i128::MAX
}

/// An exact fraction with a positive denominator; the executable stand-in
/// for a floating-point cell value.
#[derive(Debug, Clone, Copy, PartialEq, Eq, Structural)]
pub struct Frac {
    pub num: i128,
    pub den: i128,
}

impl Frac {
    pub open spec fn wf(self) -> bool {
        self.den > 0
    }

    pub open spec fn view(self) -> Rational {
        Rational { n: self.num as int, d: self.den as int }
    }

    /// The fraction v/1.
    pub fn from_int(v: i64) -> (r: Frac)
        ensures
            r.wf(),
            r@ == rat_of_int(v as int),
    {
        Frac { num: v as i128, den: 1 }
    }

    /// The fraction num/den, with the sign moved into the numerator.
    pub fn new(num: i64, den: i64) -> (r: Frac)
        requires
            den != 0,
        ensures
            r.wf(),
            rat_eq(r@, Rational { n: num as int, d: den as int }) || (den < 0 && rat_eq(
                r@,
                Rational { n: -(num as int), d: -(den as int) },
            )),
            den > 0 ==> r@ == (Rational { n: num as int, d: den as int }),
    {
        if den > 0 {
            Frac { num: num as i128, den: den as i128 }
        } else {
            Frac { num: -(num as i128), den: -(den as i128) }
        }
    }

    pub fn is_zero(&self) -> (r: bool)
        ensures
            r == rat_is_zero(self@),
    {
        self.num == 0
    }

    pub fn checked_add(self, o: Frac) -> (r: Option<Frac>)
        requires
            self.wf(),
            o.wf(),
        ensures
            match r {
                Some(f) => f.wf() && f@ == rat_add(self@, o@) && rat_add_fits(self@, o@),
                None => !rat_add_fits(self@, o@),
            },
    {
        let x = self.num.checked_mul(o.den);
        let y = o.num.checked_mul(self.den);
        let d = self.den.checked_mul(o.den);
        match (x, y, d) {
            (Some(xv), Some(yv), Some(dv)) => match xv.checked_add(yv) {
                Some(nv) => {
                    proof {
                        lemma_rat_add_wf(self@, o@);
                    }
                    Some(Frac { num: nv, den: dv })
                },
                None => None,
            },
            _ => None,
        }
    }

    pub fn checked_sub(self, o: Frac) -> (r: Option<Frac>)
        requires
            self.wf(),
            o.wf(),
        ensures
            match r {
                Some(f) => f.wf() && f@ == rat_sub(self@, o@) && rat_sub_fits(self@, o@),
                None => !rat_sub_fits(self@, o@),
            },
    {
        let x = self.num.checked_mul(o.den);
        let y = o.num.checked_mul(self.den);
        let d = self.den.checked_mul(o.den);
        match (x, y, d) {
            (Some(xv), Some(yv), Some(dv)) => match xv.checked_sub(yv) {
                Some(nv) => {
                    proof {
                        lemma_rat_add_wf(self@, o@);
                    }
                    Some(Frac { num: nv, den: dv })
                },
                None => None,
            },
            _ => None,
        }
    }

    pub fn checked_mul(self, o: Frac) -> (r: Option<Frac>)
        requires
            self.wf(),
            o.wf(),
        ensures
            match r {
                Some(f) => f.wf() && f@ == rat_mul(self@, o@) && rat_mul_fits(self@, o@),
                None => !rat_mul_fits(self@, o@),
            },
    {
        let x = self.num.checked_mul(o.num);
        let d = self.den.checked_mul(o.den);
        match (x, d) {
            (Some(nv), Some(dv)) => {
                proof {
                    lemma_rat_add_wf(self@, o@);
                }
                Some(Frac { num: nv, den: dv })
            },
            _ => None,
        }
    }

    pub fn checked_div(self, o: Frac) -> (r: Option<Frac>)
        requires
            self.wf(),
            o.wf(),
            !rat_is_zero(o@),
        ensures
            match r {
                Some(f) => f.wf() && f@ == rat_div(self@, o@) && rat_div_fits(self@, o@),
                None => !rat_div_fits(self@, o@),
            },
    {
        let x = self.num.checked_mul(o.den);
        let d = self.den.checked_mul(o.num);
        match (x, d) {
            (Some(xv), Some(dv)) => {
                if xv == i128::MIN || dv == i128::MIN {
                    None
                } else {
                    proof {
                        lemma_rat_div_wf(self@, o@);
                    }
                    if o.num >= 0 {
                        Some(Frac { num: xv, den: dv })
                    } else {
                        Some(Frac { num: -xv, den: -dv })
                    }
                }
            },
            _ => None,
        }
    }
}

} // verus!
