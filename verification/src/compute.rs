use vstd::prelude::*;
use crate::column::{ColumnData, frac_cell_ok};
use crate::error::TransformError;
use crate::frac::{rat_add, rat_add_fits, rat_div, rat_div_fits, rat_eq, rat_is_zero, rat_mul,
    rat_mul_fits, rat_of_int, rat_sub, rat_sub_fits, rat_wf, Frac, Rational};

verus! {

/// The six numeric derivations.
#[derive(Debug, Clone, PartialEq, Eq, Structural)]
pub enum ComputationType {
    Delta,
    CumulativeSum,
    Percentage,
    Ratio,
    MovingAverage,
    ZScore,
}

/// How a null input cell is treated where substitution is tolerated
/// (cumulative sum and moving average); delta, percentage, ratio and
/// z-score always propagate nulls.
#[derive(Debug, Clone, PartialEq, Eq, Structural)]
pub enum NullHandling {
    SkipNulls,
    PropagateNulls,
    FillWithZero,
}

// ---------------------------------------------------------------------------
// Numeric views of a column
// ---------------------------------------------------------------------------
/// The cells of a numeric column, reduced to one of the two numeric
/// families: integers, or exact fractions standing for floats.
pub enum NumericCells {
    Ints(Vec<Option<i64>>),
    Fracs(Vec<Option<Frac>>),
}

/// Whether a column belongs to the integer family of the numeric types.
pub open spec fn is_int_family(data: ColumnData) -> bool {
    data is Int32 || data is Int64
}

/// Whether a column is numeric at all.
pub open spec fn is_numeric(data: ColumnData) -> bool {
    data is Int32 || data is Int64 || data is Float32 || data is Float64
}

/// The integer cells of an integer-family column, widened to 64 bits.
pub open spec fn int_cells_spec(data: ColumnData) -> Seq<Option<i64>> {
    match data {
        ColumnData::Int32(v) => v@.map_values(
            |c: Option<i32>|
                match c {
                    Some(x) => Some(x as i64),
                    None => None,
                },
        ),
        ColumnData::Int64(v) => v@,
        _ => Seq::empty(),
    }
}

/// The fractional cells of a float-family column.
pub open spec fn frac_cells_spec(data: ColumnData) -> Seq<Option<Frac>> {
    match data {
        ColumnData::Float32(v) => v@,
        ColumnData::Float64(v) => v@,
        _ => Seq::empty(),
    }
}

/// Extracts the cells of a numeric column; a non-numeric column is a type
/// error.
pub fn numeric_cells(data: &ColumnData) -> (r: Result<NumericCells, TransformError>)
    ensures
        match r {
            Ok(cells) => is_numeric(*data) && match cells {
                NumericCells::Ints(v) => is_int_family(*data) && v@ == int_cells_spec(*data),
                NumericCells::Fracs(v) => !is_int_family(*data) && v@ == frac_cells_spec(*data),
            },
            Err(e) => e is UnsupportedType && !is_numeric(*data),
        },
{
    match data {
        ColumnData::Int32(v) => {
            let n = v.len();
            let mut out: Vec<Option<i64>> = Vec::new();
            for i in 0..n
                invariant
                    n == v@.len(),
                    out@.len() == i,
                    forall|j: int|
                        0 <= j < i ==> #[trigger] out@[j] == (match v@[j] {
                            Some(x) => Some(x as i64),
                            None => None::<i64>,
                        }),
            {
                out.push(
                    match v[i] {
                        Some(x) => Some(x as i64),
                        None => None,
                    },
                );
            }
            proof {
                assert(out@ =~= int_cells_spec(*data));
            }
            Ok(NumericCells::Ints(out))
        },
        ColumnData::Int64(v) => Ok(NumericCells::Ints(v.clone())),
        ColumnData::Float32(v) => Ok(NumericCells::Fracs(v.clone())),
        ColumnData::Float64(v) => Ok(NumericCells::Fracs(v.clone())),
        _ => Err(TransformError::UnsupportedType),
    }
}

// ---------------------------------------------------------------------------
// Checked-step predicates on fractions
// ---------------------------------------------------------------------------
/// The fraction addition both fits the machine and leaves a renderable
/// numerator.
pub open spec fn add_ok(a: Rational, b: Rational) -> bool {
    rat_add_fits(a, b) && rat_add(a, b).n > i128::MIN
}

pub open spec fn sub_ok(a: Rational, b: Rational) -> bool {
    rat_sub_fits(a, b) && rat_sub(a, b).n > i128::MIN
}

pub open spec fn mul_ok(a: Rational, b: Rational) -> bool {
    rat_mul_fits(a, b) && rat_mul(a, b).n > i128::MIN
}

pub open spec fn div_ok(a: Rational, b: Rational) -> bool {
    rat_div_fits(a, b) && rat_div(a, b).n > i128::MIN
}

/// The mathematical value of a fractional cell.
pub open spec fn cell_rat(c: Option<Frac>) -> Option<Rational> {
    match c {
        Some(f) => Some(f@),
        None => None,
    }
}

pub open spec fn rat_cells(v: Seq<Option<Frac>>) -> Seq<Option<Rational>> {
    v.map_values(|c: Option<Frac>| cell_rat(c))
}

// ---------------------------------------------------------------------------
// Delta
// ---------------------------------------------------------------------------
/// The delta of row `i`: undefined for the first row and across any null,
/// else the difference with the previous row.
pub open spec fn delta_int_at(v: Seq<Option<i64>>, i: int) -> Option<int> {
    if i <= 0 {
        None
    } else {
        match (v[i], v[i - 1]) {
            (Some(a), Some(b)) => Some(a - b),
            _ => None,
        }
    }
}

pub open spec fn delta_int_fits(v: Seq<Option<i64>>, i: int) -> bool {
    match delta_int_at(v, i) {
        Some(d) => i64::MIN <= d <= i64::MAX,
        None => true,
    }
}

/// Computes row-to-row differences over integer cells. The first row and
/// any row adjacent to a null yield null; null propagates regardless of
/// the configured null handling.
pub fn delta_ints(v: &Vec<Option<i64>>) -> (r: Result<Vec<Option<i64>>, TransformError>)
    ensures
        match r {
            Ok(out) => {
                &&& v@.len() > 0
                &&& out@.len() == v@.len()
                &&& forall|i: int|
                    0 <= i < out@.len() ==> #[trigger] out@[i] == (match delta_int_at(v@, i) {
                        Some(d) => Some(d as i64),
                        None => None::<i64>,
                    })
                &&& forall|i: int| 0 <= i < v@.len() ==> delta_int_fits(v@, i)
            },
            Err(e) => (e is EmptyInput && v@.len() == 0) || (e
                is NumericOverflow && !(forall|i: int|
                0 <= i < v@.len() ==> delta_int_fits(v@, i))),
        },
{
    let n = v.len();
    if n == 0 {
        return Err(TransformError::EmptyInput);
    }
    let mut out: Vec<Option<i64>> = Vec::new();
    out.push(None);
    for i in 1..n
        invariant
            n == v@.len(),
            out@.len() == i,
            forall|j: int|
                0 <= j < i ==> #[trigger] out@[j] == (match delta_int_at(v@, j) {
                    Some(d) => Some(d as i64),
                    None => None::<i64>,
                }),
            forall|j: int| 0 <= j < i ==> delta_int_fits(v@, j),
    {
        match (v[i], v[i - 1]) {
            (Some(a), Some(b)) => {
                match a.checked_sub(b) {
                    Some(d) => {
                        out.push(Some(d));
                    },
                    None => {
                        proof {
                            assert(!delta_int_fits(v@, i as int));
                        }
                        return Err(TransformError::NumericOverflow);
                    },
                }
            },
            _ => {
                out.push(None);
            },
        }
    }
    Ok(out)
}

/// The delta of row `i` over fractional cells.
pub open spec fn delta_rat_at(v: Seq<Option<Rational>>, i: int) -> Option<Rational> {
    if i <= 0 {
        None
    } else {
        match (v[i], v[i - 1]) {
            (Some(a), Some(b)) => Some(rat_sub(a, b)),
            _ => None,
        }
    }
}

pub open spec fn delta_rat_fits(v: Seq<Option<Rational>>, i: int) -> bool {
    if i <= 0 {
        true
    } else {
        match (v[i], v[i - 1]) {
            (Some(a), Some(b)) => sub_ok(a, b),
            _ => true,
        }
    }
}

/// Computes row-to-row differences over fractional cells.
pub fn delta_fracs(v: &Vec<Option<Frac>>) -> (r: Result<Vec<Option<Frac>>, TransformError>)
    requires
        forall|i: int| 0 <= i < v@.len() ==> frac_cell_ok(#[trigger] v@[i]),
    ensures
        match r {
            Ok(out) => {
                &&& v@.len() > 0
                &&& out@.len() == v@.len()
                &&& forall|i: int| 0 <= i < out@.len() ==> frac_cell_ok(#[trigger] out@[i])
                &&& forall|i: int|
                    0 <= i < out@.len() ==> #[trigger] cell_rat(out@[i]) == delta_rat_at(
                        rat_cells(v@),
                        i,
                    )
                &&& forall|i: int| 0 <= i < v@.len() ==> delta_rat_fits(rat_cells(v@), i)
            },
            Err(e) => (e is EmptyInput && v@.len() == 0) || (e
                is NumericOverflow && !(forall|i: int|
                0 <= i < v@.len() ==> delta_rat_fits(rat_cells(v@), i))),
        },
{
    let ghost rv = rat_cells(v@);
    let n = v.len();
    if n == 0 {
        return Err(TransformError::EmptyInput);
    }
    let mut out: Vec<Option<Frac>> = Vec::new();
    out.push(None);
    for i in 1..n
        invariant
            n == v@.len(),
            rv == rat_cells(v@),
            forall|k: int| 0 <= k < v@.len() ==> frac_cell_ok(#[trigger] v@[k]),
            out@.len() == i,
            forall|j: int| 0 <= j < i ==> frac_cell_ok(#[trigger] out@[j]),
            forall|j: int|
                0 <= j < i ==> #[trigger] cell_rat(out@[j]) == delta_rat_at(rv, j),
            forall|j: int| 0 <= j < i ==> delta_rat_fits(rv, j),
    {
        proof {
            assert(rv[i as int] == cell_rat(v@[i as int]));
            assert(rv[i - 1] == cell_rat(v@[i - 1]));
        }
        match (v[i], v[i - 1]) {
            (Some(a), Some(b)) => {
                match a.checked_sub(b) {
                    Some(d) => {
                        if d.num == i128::MIN {
                            proof {
                                assert(!delta_rat_fits(rv, i as int));
                            }
                            return Err(TransformError::NumericOverflow);
                        }
                        out.push(Some(d));
                    },
                    None => {
                        proof {
                            assert(!delta_rat_fits(rv, i as int));
                        }
                        return Err(TransformError::NumericOverflow);
                    },
                }
            },
            _ => {
                out.push(None);
            },
        }
    }
    Ok(out)
}

// ---------------------------------------------------------------------------
// Cumulative sum
// ---------------------------------------------------------------------------
/// The running total of the non-null integer cells among the first `n`.
pub open spec fn cum_int(v: Seq<Option<i64>>, n: int) -> int
    decreases n,
{
    if n <= 0 {
        0
    } else {
        cum_int(v, n - 1) + (match v[n - 1] {
            Some(x) => x as int,
            None => 0,
        })
    }
}

pub open spec fn cum_int_fits(v: Seq<Option<i64>>, n: int) -> bool {
    forall|m: int| 0 <= m <= n ==> i64::MIN <= #[trigger] cum_int(v, m) <= i64::MAX
}

/// What the cumulative-sum column holds at row `i`: under `FillWithZero`
/// every row carries the running total (nulls contributing zero); under
/// the other policies a null row stays null but still leaves the running
/// total available to later rows.
pub open spec fn cum_int_cell(v: Seq<Option<i64>>, nh: NullHandling, i: int) -> Option<int> {
    if nh == NullHandling::FillWithZero {
        Some(cum_int(v, i + 1))
    } else {
        match v[i] {
            Some(_) => Some(cum_int(v, i + 1)),
            None => None,
        }
    }
}

/// Computes the running total over integer cells.
pub fn cumulative_sum_ints(v: &Vec<Option<i64>>, nh: &NullHandling) -> (r: Result<
    Vec<Option<i64>>,
    TransformError,
>)
    ensures
        match r {
            Ok(out) => {
                &&& v@.len() > 0
                &&& out@.len() == v@.len()
                &&& forall|i: int|
                    0 <= i < out@.len() ==> #[trigger] out@[i] == (match cum_int_cell(
                        v@,
                        *nh,
                        i,
                    ) {
                        Some(x) => Some(x as i64),
                        None => None::<i64>,
                    })
                &&& cum_int_fits(v@, v@.len() as int)
            },
            Err(e) => (e is EmptyInput && v@.len() == 0) || (e
                is NumericOverflow && !cum_int_fits(v@, v@.len() as int)),
        },
{
    let n = v.len();
    if n == 0 {
        return Err(TransformError::EmptyInput);
    }
    let mut out: Vec<Option<i64>> = Vec::new();
    let mut acc: i64 = 0;
    let fill = *nh == NullHandling::FillWithZero;
    for i in 0..n
        invariant
            n == v@.len(),
            out@.len() == i,
            acc == cum_int(v@, i as int),
            fill == (*nh == NullHandling::FillWithZero),
            forall|m: int| 0 <= m <= i ==> i64::MIN <= #[trigger] cum_int(v@, m) <= i64::MAX,
            forall|j: int|
                0 <= j < i ==> #[trigger] out@[j] == (match cum_int_cell(v@, *nh, j) {
                    Some(x) => Some(x as i64),
                    None => None::<i64>,
                }),
    {
        match v[i] {
            Some(x) => {
                acc = match acc.checked_add(x) {
                    Some(a) => a,
                    None => {
                        proof {
                            assert(cum_int(v@, i + 1) == cum_int(v@, i as int) + x);
                            assert(!(i64::MIN <= cum_int(v@, i + 1) <= i64::MAX));
                            assert(!cum_int_fits(v@, v@.len() as int));
                        }
                        return Err(TransformError::NumericOverflow);
                    },
                };
                out.push(Some(acc));
            },
            None => {
                out.push(
                    if fill {
                        Some(acc)
                    } else {
                        None
                    },
                );
            },
        }
    }
    Ok(out)
}

/// The running total of the non-null fractional cells among the first `n`,
/// as the exact pair the left-to-right scan produces.
pub open spec fn cum_rat(v: Seq<Option<Rational>>, n: int) -> Rational
    decreases n,
{
    if n <= 0 {
        rat_of_int(0)
    } else {
        match v[n - 1] {
            Some(x) => rat_add(cum_rat(v, n - 1), x),
            None => cum_rat(v, n - 1),
        }
    }
}

/// Whether every step of the running total fits the machine.
pub open spec fn cum_rat_fits(v: Seq<Option<Rational>>, n: int) -> bool
    decreases n,
{
    if n <= 0 {
        true
    } else {
        cum_rat_fits(v, n - 1) && (match v[n - 1] {
            Some(x) => add_ok(cum_rat(v, n - 1), x),
            None => true,
        })
    }
}

/// Fitting is inherited by every prefix of the scan.
pub proof fn lemma_cum_rat_fits_prefix(v: Seq<Option<Rational>>, m: int, n: int)
    requires
        m <= n,
        cum_rat_fits(v, n),
    ensures
        cum_rat_fits(v, m),
    decreases n - m,
{
    if m < n {
        lemma_cum_rat_fits_prefix(v, m, n - 1);
    }
}

pub open spec fn cum_rat_cell(v: Seq<Option<Rational>>, nh: NullHandling, i: int) -> Option<
    Rational,
> {
    if nh == NullHandling::FillWithZero {
        Some(cum_rat(v, i + 1))
    } else {
        match v[i] {
            Some(_) => Some(cum_rat(v, i + 1)),
            None => None,
        }
    }
}

pub proof fn lemma_cum_rat_wf(v: Seq<Option<Rational>>, n: int)
    requires
        forall|i: int|
            0 <= i < v.len() ==> ((#[trigger] v[i]) matches Some(x) ==> rat_wf(x)),
        n <= v.len(),
    ensures
        rat_wf(cum_rat(v, n)),
    decreases n,
{
    if n > 0 {
        lemma_cum_rat_wf(v, n - 1);
        match v[n - 1] {
            Some(x) => {
                crate::frac::lemma_rat_add_wf(cum_rat(v, n - 1), x);
            },
            None => {},
        }
    }
}

/// Computes the running total over fractional cells.
pub fn cumulative_sum_fracs(v: &Vec<Option<Frac>>, nh: &NullHandling) -> (r: Result<
    Vec<Option<Frac>>,
    TransformError,
>)
    requires
        forall|i: int| 0 <= i < v@.len() ==> frac_cell_ok(#[trigger] v@[i]),
    ensures
        match r {
            Ok(out) => {
                &&& v@.len() > 0
                &&& out@.len() == v@.len()
                &&& forall|i: int| 0 <= i < out@.len() ==> frac_cell_ok(#[trigger] out@[i])
                &&& forall|i: int|
                    0 <= i < out@.len() ==> #[trigger] cell_rat(out@[i]) == cum_rat_cell(
                        rat_cells(v@),
                        *nh,
                        i,
                    )
                &&& cum_rat_fits(rat_cells(v@), v@.len() as int)
            },
            Err(e) => (e is EmptyInput && v@.len() == 0) || (e
                is NumericOverflow && !cum_rat_fits(
                rat_cells(v@),
                v@.len() as int,
            )),
        },
{
    let ghost rv = rat_cells(v@);
    let n = v.len();
    if n == 0 {
        return Err(TransformError::EmptyInput);
    }
    let mut out: Vec<Option<Frac>> = Vec::new();
    let mut acc = Frac::from_int(0);
    let fill = *nh == NullHandling::FillWithZero;
    for i in 0..n
        invariant
            n == v@.len(),
            rv == rat_cells(v@),
            forall|k: int| 0 <= k < v@.len() ==> frac_cell_ok(#[trigger] v@[k]),
            out@.len() == i,
            acc@ == cum_rat(rv, i as int),
            acc.wf(),
            acc.num > i128::MIN,
            fill == (*nh == NullHandling::FillWithZero),
            cum_rat_fits(rv, i as int),
            forall|j: int| 0 <= j < i ==> frac_cell_ok(#[trigger] out@[j]),
            forall|j: int|
                0 <= j < i ==> #[trigger] cell_rat(out@[j]) == cum_rat_cell(rv, *nh, j),
    {
        proof {
            assert(rv[i as int] == cell_rat(v@[i as int]));
        }
        match v[i] {
            Some(x) => {
                acc = match acc.checked_add(x) {
                    Some(a) => a,
                    None => {
                        proof {
                            if cum_rat_fits(rv, rv.len() as int) {
                                lemma_cum_rat_fits_prefix(rv, i + 1, rv.len() as int);
                            }
                        }
                        return Err(TransformError::NumericOverflow);
                    },
                };
                if acc.num == i128::MIN {
                    proof {
                        if cum_rat_fits(rv, rv.len() as int) {
                            lemma_cum_rat_fits_prefix(rv, i + 1, rv.len() as int);
                        }
                    }
                    return Err(TransformError::NumericOverflow);
                }
                out.push(Some(acc));
            },
            None => {
                out.push(
                    if fill {
                        Some(acc)
                    } else {
                        None
                    },
                );
            },
        }
    }
    Ok(out)
}

// ---------------------------------------------------------------------------
// Percentage of total
// ---------------------------------------------------------------------------
/// The percentage cell of row `i` of an integer column: the value's share
/// of the column total, scaled by 100; null where the input is null or the
/// total is zero.
pub open spec fn pct_int_cell(v: Seq<Option<i64>>, i: int) -> Option<Rational> {
    let t = cum_int(v, v.len() as int);
    if t == 0 {
        None
    } else {
        match v[i] {
            Some(x) => Some(rat_div(rat_mul(rat_of_int(x as int), rat_of_int(100)), rat_of_int(t))),
            None => None,
        }
    }
}

/// Computes percentage-of-total over integer cells; the output is always
/// fractional. The total is exact, so this computation cannot overflow.
pub fn percentage_ints(v: &Vec<Option<i64>>) -> (r: Result<Vec<Option<Frac>>, TransformError>)
    ensures
        match r {
            Ok(out) => {
                &&& v@.len() > 0
                &&& out@.len() == v@.len()
                &&& forall|i: int| 0 <= i < out@.len() ==> frac_cell_ok(#[trigger] out@[i])
                &&& forall|i: int|
                    0 <= i < out@.len() ==> #[trigger] cell_rat(out@[i]) == pct_int_cell(v@, i)
            },
            Err(e) => e is EmptyInput && v@.len() == 0,
        },
{
    let n = v.len();
    if n == 0 {
        return Err(TransformError::EmptyInput);
    }
    proof {
        assert(usize::MAX <= 0xFFFF_FFFF_FFFF_FFFFu64);
    }
    let mut total: i128 = 0;
    for i in 0..n
        invariant
            n == v@.len(),
            n <= 0xFFFF_FFFF_FFFF_FFFFu64,
            total == cum_int(v@, i as int),
            -(i as int) * 0x8000_0000_0000_0000 <= total <= (i as int) * 0x8000_0000_0000_0000,
    {
        match v[i] {
            Some(x) => {
                total = total + x as i128;
            },
            None => {},
        }
    }
    let mut out: Vec<Option<Frac>> = Vec::new();
    if total == 0 {
        for i in 0..n
            invariant
                n == v@.len(),
                out@.len() == i,
                cum_int(v@, v@.len() as int) == 0,
                forall|j: int| 0 <= j < i ==> (#[trigger] out@[j]) is None,
        {
            out.push(None);
        }
        proof {
            assert forall|i: int| 0 <= i < out@.len() implies #[trigger] cell_rat(out@[i])
                == pct_int_cell(v@, i) by {
                assert(out@[i] is None);
            }
        }
        return Ok(out);
    }
    for i in 0..n
        invariant
            n == v@.len(),
            n <= 0xFFFF_FFFF_FFFF_FFFFu64,
            out@.len() == i,
            total == cum_int(v@, v@.len() as int),
            total != 0,
            -(n as int) * 0x8000_0000_0000_0000 <= total <= (n as int) * 0x8000_0000_0000_0000,
            forall|j: int| 0 <= j < i ==> frac_cell_ok(#[trigger] out@[j]),
            forall|j: int|
                0 <= j < i ==> #[trigger] cell_rat(out@[j]) == pct_int_cell(v@, j),
    {
        match v[i] {
            Some(x) => {
                let num: i128 = (x as i128) * 100;
                let f = if total > 0 {
                    Frac { num, den: total }
                } else {
                    Frac { num: -num, den: -total }
                };
                proof {
                    let m = rat_mul(rat_of_int(x as int), rat_of_int(100));
                    assert(m.n == x as int * 100);
                    assert(m.d == 1);
                    let d = rat_div(m, rat_of_int(cum_int(v@, v@.len() as int)));
                    if total > 0 {
                        assert(d == (Rational { n: m.n * 1, d: 1 * (total as int) }));
                    } else {
                        assert(d == (Rational { n: -(m.n * 1), d: -(1 * (total as int)) }));
                    }
                    assert(f@ == d);
                }
                out.push(Some(f));
            },
            None => {
                out.push(None);
            },
        }
    }
    Ok(out)
}

/// The percentage cell of row `i` of a fractional column.
pub open spec fn pct_rat_cell(v: Seq<Option<Rational>>, i: int) -> Option<Rational> {
    let t = cum_rat(v, v.len() as int);
    if rat_is_zero(t) {
        None
    } else {
        match v[i] {
            Some(x) => Some(rat_div(rat_mul(x, rat_of_int(100)), t)),
            None => None,
        }
    }
}

/// Whether the percentage of row `i` fits the machine.
pub open spec fn pct_rat_fits(v: Seq<Option<Rational>>, i: int) -> bool {
    let t = cum_rat(v, v.len() as int);
    match v[i] {
        Some(x) => mul_ok(x, rat_of_int(100)) && rat_div_fits(rat_mul(x, rat_of_int(100)), t),
        None => true,
    }
}

/// Computes percentage-of-total over fractional cells.
pub fn percentage_fracs(v: &Vec<Option<Frac>>) -> (r: Result<Vec<Option<Frac>>, TransformError>)
    requires
        forall|i: int| 0 <= i < v@.len() ==> frac_cell_ok(#[trigger] v@[i]),
    ensures
        match r {
            Ok(out) => {
                &&& v@.len() > 0
                &&& out@.len() == v@.len()
                &&& forall|i: int| 0 <= i < out@.len() ==> frac_cell_ok(#[trigger] out@[i])
                &&& forall|i: int|
                    0 <= i < out@.len() ==> #[trigger] cell_rat(out@[i]) == pct_rat_cell(
                        rat_cells(v@),
                        i,
                    )
            },
            Err(e) => (e is EmptyInput && v@.len() == 0) || (e
                is NumericOverflow && (!cum_rat_fits(
                rat_cells(v@),
                v@.len() as int,
            ) || !(forall|i: int|
                0 <= i < v@.len() ==> pct_rat_fits(rat_cells(v@), i)))),
        },
{
    let ghost rv = rat_cells(v@);
    let n = v.len();
    if n == 0 {
        return Err(TransformError::EmptyInput);
    }
    let mut total = Frac::from_int(0);
    for i in 0..n
        invariant
            n == v@.len(),
            rv == rat_cells(v@),
            forall|k: int| 0 <= k < v@.len() ==> frac_cell_ok(#[trigger] v@[k]),
            total@ == cum_rat(rv, i as int),
            total.wf(),
            cum_rat_fits(rv, i as int),
    {
        proof {
            assert(rv[i as int] == cell_rat(v@[i as int]));
        }
        match v[i] {
            Some(x) => {
                total = match total.checked_add(x) {
                    Some(a) => a,
                    None => {
                        proof {
                            if cum_rat_fits(rv, rv.len() as int) {
                                lemma_cum_rat_fits_prefix(rv, i + 1, rv.len() as int);
                            }
                        }
                        return Err(TransformError::NumericOverflow);
                    },
                };
                if total.num == i128::MIN {
                    proof {
                        if cum_rat_fits(rv, rv.len() as int) {
                            lemma_cum_rat_fits_prefix(rv, i + 1, rv.len() as int);
                        }
                    }
                    return Err(TransformError::NumericOverflow);
                }
            },
            None => {},
        }
    }
    let ghost t = cum_rat(rv, rv.len() as int);
    let hundred = Frac { num: 100, den: 1 };
    let mut out: Vec<Option<Frac>> = Vec::new();
    if total.is_zero() {
        for i in 0..n
            invariant
                n == v@.len(),
                rv == rat_cells(v@),
                out@.len() == i,
                rat_is_zero(cum_rat(rv, rv.len() as int)),
                forall|j: int| 0 <= j < i ==> (#[trigger] out@[j]) is None,
        {
            out.push(None);
        }
        proof {
            assert forall|i: int| 0 <= i < out@.len() implies #[trigger] cell_rat(out@[i])
                == pct_rat_cell(rv, i) by {
                assert(out@[i] is None);
            }
        }
        return Ok(out);
    }
    for i in 0..n
        invariant
            n == v@.len(),
            rv == rat_cells(v@),
            forall|k: int| 0 <= k < v@.len() ==> frac_cell_ok(#[trigger] v@[k]),
            out@.len() == i,
            total@ == cum_rat(rv, rv.len() as int),
            total.wf(),
            !rat_is_zero(total@),
            hundred@ == rat_of_int(100),
            forall|j: int| 0 <= j < i ==> frac_cell_ok(#[trigger] out@[j]),
            forall|j: int|
                0 <= j < i ==> #[trigger] cell_rat(out@[j]) == pct_rat_cell(rv, j),
    {
        proof {
            assert(rv[i as int] == cell_rat(v@[i as int]));
        }
        match v[i] {
            Some(x) => {
                let scaled = match x.checked_mul(hundred) {
                    Some(s) => s,
                    None => {
                        proof {
                            assert(!pct_rat_fits(rv, i as int));
                        }
                        return Err(TransformError::NumericOverflow);
                    },
                };
                if scaled.num == i128::MIN {
                    proof {
                        assert(!pct_rat_fits(rv, i as int));
                    }
                    return Err(TransformError::NumericOverflow);
                }
                let f = match scaled.checked_div(total) {
                    Some(f) => f,
                    None => {
                        proof {
                            assert(!pct_rat_fits(rv, i as int));
                        }
                        return Err(TransformError::NumericOverflow);
                    },
                };
                out.push(Some(f));
            },
            None => {
                out.push(None);
            },
        }
    }
    Ok(out)
}

// ---------------------------------------------------------------------------
// Ratio of two columns
// ---------------------------------------------------------------------------
/// The ratio cell of row `i`: numerator over denominator, null where
/// either side is null or the denominator is zero.
pub open spec fn ratio_cell(a: Seq<Option<Rational>>, b: Seq<Option<Rational>>, i: int) -> Option<
    Rational,
> {
    match (a[i], b[i]) {
        (Some(x), Some(y)) => if rat_is_zero(y) {
            None
        } else {
            Some(rat_div(x, y))
        },
        _ => None,
    }
}

pub open spec fn ratio_fits(a: Seq<Option<Rational>>, b: Seq<Option<Rational>>, i: int) -> bool {
    match (a[i], b[i]) {
        (Some(x), Some(y)) => rat_is_zero(y) || rat_div_fits(x, y),
        _ => true,
    }
}

/// Computes the per-row ratio of two columns of fractional cells (integer
/// operands are promoted to fractions by the caller).
pub fn ratio_fracs(a: &Vec<Option<Frac>>, b: &Vec<Option<Frac>>) -> (r: Result<
    Vec<Option<Frac>>,
    TransformError,
>)
    requires
        forall|i: int| 0 <= i < a@.len() ==> frac_cell_ok(#[trigger] a@[i]),
        forall|i: int| 0 <= i < b@.len() ==> frac_cell_ok(#[trigger] b@[i]),
    ensures
        match r {
            Ok(out) => {
                &&& a@.len() == b@.len()
                &&& a@.len() > 0
                &&& out@.len() == a@.len()
                &&& forall|i: int| 0 <= i < out@.len() ==> frac_cell_ok(#[trigger] out@[i])
                &&& forall|i: int|
                    0 <= i < out@.len() ==> #[trigger] cell_rat(out@[i]) == ratio_cell(
                        rat_cells(a@),
                        rat_cells(b@),
                        i,
                    )
            },
            Err(e) => (e is UnsupportedType && a@.len() != b@.len()) || (e is EmptyInput
                && a@.len() == 0 && b@.len() == 0) || (e is NumericOverflow && !(forall|i: int|
                0 <= i < a@.len() ==> ratio_fits(rat_cells(a@), rat_cells(b@), i))),
        },
{
    let ghost ra = rat_cells(a@);
    let ghost rb = rat_cells(b@);
    if a.len() != b.len() {
        return Err(TransformError::UnsupportedType);
    }
    let n = a.len();
    if n == 0 {
        return Err(TransformError::EmptyInput);
    }
    let mut out: Vec<Option<Frac>> = Vec::new();
    for i in 0..n
        invariant
            n == a@.len(),
            n == b@.len(),
            ra == rat_cells(a@),
            rb == rat_cells(b@),
            forall|k: int| 0 <= k < a@.len() ==> frac_cell_ok(#[trigger] a@[k]),
            forall|k: int| 0 <= k < b@.len() ==> frac_cell_ok(#[trigger] b@[k]),
            out@.len() == i,
            forall|j: int| 0 <= j < i ==> frac_cell_ok(#[trigger] out@[j]),
            forall|j: int|
                0 <= j < i ==> #[trigger] cell_rat(out@[j]) == ratio_cell(ra, rb, j),
    {
        proof {
            assert(ra[i as int] == cell_rat(a@[i as int]));
            assert(rb[i as int] == cell_rat(b@[i as int]));
        }
        match (a[i], b[i]) {
            (Some(x), Some(y)) => {
                if y.is_zero() {
                    out.push(None);
                } else {
                    match x.checked_div(y) {
                        Some(f) => {
                            out.push(Some(f));
                        },
                        None => {
                            proof {
                                assert(!ratio_fits(ra, rb, i as int));
                            }
                            return Err(TransformError::NumericOverflow);
                        },
                    }
                }
            },
            _ => {
                out.push(None);
            },
        }
    }
    Ok(out)
}

// ---------------------------------------------------------------------------
// Moving average
// ---------------------------------------------------------------------------
/// The column with nulls replaced by zero, the effective input under
/// `FillWithZero`.
pub open spec fn fill_cells(v: Seq<Option<Rational>>) -> Seq<Option<Rational>> {
    v.map_values(
        |c: Option<Rational>|
            match c {
                Some(x) => Some(x),
                None => Some(rat_of_int(0)),
            },
    )
}

/// How many of the up-to-`k` most recent non-null cells at or before `i`
/// exist.
pub open spec fn window_count(v: Seq<Option<Rational>>, i: int, k: int) -> int
    decreases i + 1,
{
    if i < 0 || k <= 0 {
        0
    } else {
        match v[i] {
            Some(_) => 1 + window_count(v, i - 1, k - 1),
            None => window_count(v, i - 1, k),
        }
    }
}

/// The sum of the up-to-`k` most recent non-null cells at or before `i`,
/// folded onto `acc` newest first, as the scan produces it.
pub open spec fn window_sum(v: Seq<Option<Rational>>, i: int, k: int, acc: Rational) -> Rational
    decreases i + 1,
{
    if i < 0 || k <= 0 {
        acc
    } else {
        match v[i] {
            Some(x) => window_sum(v, i - 1, k - 1, rat_add(acc, x)),
            None => window_sum(v, i - 1, k, acc),
        }
    }
}

/// Whether every step of the window fold fits the machine.
pub open spec fn window_fits(v: Seq<Option<Rational>>, i: int, k: int, acc: Rational) -> bool
    decreases i + 1,
{
    if i < 0 || k <= 0 {
        true
    } else {
        match v[i] {
            Some(x) => add_ok(acc, x) && window_fits(v, i - 1, k - 1, rat_add(acc, x)),
            None => window_fits(v, i - 1, k, acc),
        }
    }
}

/// The moving-average cell of row `i`: the average of the up-to-`k` most
/// recent non-null values ending at `i` (fewer while the window fills);
/// null where the effective input cell is null.
pub open spec fn ma_cell(v: Seq<Option<Rational>>, nh: NullHandling, k: int, i: int) -> Option<
    Rational,
> {
    let w = if nh == NullHandling::FillWithZero {
        fill_cells(v)
    } else {
        v
    };
    match w[i] {
        Some(_) => {
            let c = window_count(w, i, k);
            if c > 0 {
                Some(rat_div(window_sum(w, i, k, rat_of_int(0)), rat_of_int(c)))
            } else {
                None
            }
        },
        None => None,
    }
}

/// Whether the moving average of row `i` fits the machine.
pub open spec fn ma_fits(v: Seq<Option<Rational>>, nh: NullHandling, k: int, i: int) -> bool {
    let w = if nh == NullHandling::FillWithZero {
        fill_cells(v)
    } else {
        v
    };
    match w[i] {
        Some(_) => {
            let c = window_count(w, i, k);
            window_fits(w, i, k, rat_of_int(0)) && (c > 0 ==> rat_div_fits(
                window_sum(w, i, k, rat_of_int(0)),
                rat_of_int(c),
            ))
        },
        None => true,
    }
}

proof fn lemma_window_count_bound(v: Seq<Option<Rational>>, i: int, k: int)
    ensures
        0 <= window_count(v, i, k) <= if k <= 0 {
            0int
        } else {
            k
        },
    decreases i + 1,
{
    if !(i < 0 || k <= 0) {
        lemma_window_count_bound(v, i - 1, k - 1);
        lemma_window_count_bound(v, i - 1, k);
    }
}

/// Computes the trailing moving average over fractional cells.
pub fn moving_average_fracs(v: &Vec<Option<Frac>>, k: usize, nh: &NullHandling) -> (r: Result<
    Vec<Option<Frac>>,
    TransformError,
>)
    requires
        forall|i: int| 0 <= i < v@.len() ==> frac_cell_ok(#[trigger] v@[i]),
        k <= i64::MAX,
    ensures
        match r {
            Ok(out) => {
                &&& v@.len() > 0
                &&& out@.len() == v@.len()
                &&& forall|i: int| 0 <= i < out@.len() ==> frac_cell_ok(#[trigger] out@[i])
                &&& forall|i: int|
                    0 <= i < out@.len() ==> #[trigger] cell_rat(out@[i]) == ma_cell(
                        rat_cells(v@),
                        *nh,
                        k as int,
                        i,
                    )
            },
            Err(e) => (e is EmptyInput && v@.len() == 0) || (e
                is NumericOverflow && !(forall|i: int|
                0 <= i < v@.len() ==> ma_fits(rat_cells(v@), *nh, k as int, i))),
        },
{
    let ghost rv = rat_cells(v@);
    let n = v.len();
    if n == 0 {
        return Err(TransformError::EmptyInput);
    }
    // Build the effective cells: under FillWithZero a null counts as zero.
    let fill = *nh == NullHandling::FillWithZero;
    let mut w: Vec<Option<Frac>> = Vec::new();
    for i in 0..n
        invariant
            n == v@.len(),
            rv == rat_cells(v@),
            forall|q: int| 0 <= q < v@.len() ==> frac_cell_ok(#[trigger] v@[q]),
            fill == (*nh == NullHandling::FillWithZero),
            w@.len() == i,
            forall|j: int| 0 <= j < i ==> frac_cell_ok(#[trigger] w@[j]),
            forall|j: int|
                0 <= j < i ==> #[trigger] cell_rat(w@[j]) == (if fill {
                    fill_cells(rv)[j]
                } else {
                    rv[j]
                }),
    {
        proof {
            assert(rv[i as int] == cell_rat(v@[i as int]));
            assert(fill_cells(rv)[i as int] == (match rv[i as int] {
                Some(x) => Some(x),
                None => Some(rat_of_int(0)),
            }));
        }
        match v[i] {
            Some(x) => {
                w.push(Some(x));
            },
            None => {
                if fill {
                    w.push(Some(Frac::from_int(0)));
                } else {
                    w.push(None);
                }
            },
        }
    }
    let ghost wv = if fill {
        fill_cells(rv)
    } else {
        rv
    };
    proof {
        assert(wv.len() == n);
        assert(forall|j: int| 0 <= j < n ==> #[trigger] cell_rat(w@[j]) == wv[j]);
    }
    let mut out: Vec<Option<Frac>> = Vec::new();
    for i in 0..n
        invariant
            n == v@.len(),
            n == w@.len(),
            rv == rat_cells(v@),
            wv == (if *nh == NullHandling::FillWithZero {
                fill_cells(rv)
            } else {
                rv
            }),
            wv.len() == n,
            k <= i64::MAX,
            forall|j: int| 0 <= j < n ==> frac_cell_ok(#[trigger] w@[j]),
            forall|j: int| 0 <= j < n ==> #[trigger] cell_rat(w@[j]) == wv[j],
            out@.len() == i,
            forall|j: int| 0 <= j < i ==> frac_cell_ok(#[trigger] out@[j]),
            forall|j: int|
                0 <= j < i ==> #[trigger] cell_rat(out@[j]) == ma_cell(rv, *nh, k as int, j),
    {
        if w[i].is_none() {
            out.push(None);
        } else {
        let mut acc = Frac::from_int(0);
        let mut cnt: usize = 0;
        let mut j: usize = i + 1;
        while j > 0 && cnt < k
            invariant
                n == w@.len(),
                n == v@.len(),
                rv == rat_cells(v@),
                wv.len() == n,
                j <= i + 1 < n + 1,
                cnt <= k <= i64::MAX,
                i < n,
                wv == (if *nh == NullHandling::FillWithZero {
                    fill_cells(rv)
                } else {
                    rv
                }),
                wv[i as int] is Some,
                forall|q: int| 0 <= q < n ==> frac_cell_ok(#[trigger] w@[q]),
                forall|q: int| 0 <= q < n ==> #[trigger] cell_rat(w@[q]) == wv[q],
                acc.wf(),
                acc.num > i128::MIN,
                window_sum(wv, i as int, k as int, rat_of_int(0)) == window_sum(
                    wv,
                    j - 1,
                    k - cnt,
                    acc@,
                ),
                window_count(wv, i as int, k as int) == cnt + window_count(wv, j - 1, k - cnt),
                window_fits(wv, i as int, k as int, rat_of_int(0)) <==> window_fits(
                    wv,
                    j - 1,
                    k - cnt,
                    acc@,
                ),
            decreases j,
        {
            proof {
                assert(wv[j - 1] == cell_rat(w@[j - 1]));
            }
            match w[j - 1] {
                Some(x) => {
                    proof {
                        assert(wv[j - 1] == Some(x@));
                    }
                    let ghost acc0 = acc@;
                    acc = match acc.checked_add(x) {
                        Some(a) => a,
                        None => {
                            proof {
                                assert(!window_fits(wv, j - 1, k - cnt, acc0));
                                assert(!window_fits(wv, i as int, k as int, rat_of_int(0)));
                                assert(wv[i as int] is Some);
                                assert(!ma_fits(rv, *nh, k as int, i as int));
                            }
                            return Err(TransformError::NumericOverflow);
                        },
                    };
                    if acc.num == i128::MIN {
                        proof {
                            assert(rat_add(acc0, x@).n == i128::MIN);
                            assert(!window_fits(wv, j - 1, k - cnt, acc0));
                            assert(!window_fits(wv, i as int, k as int, rat_of_int(0)));
                            assert(wv[i as int] is Some);
                            assert(!ma_fits(rv, *nh, k as int, i as int));
                        }
                        return Err(TransformError::NumericOverflow);
                    }
                    proof {
                        assert(window_sum(wv, j - 1, k - cnt, acc0) == window_sum(
                            wv,
                            j - 2,
                            k - cnt - 1,
                            rat_add(acc0, x@),
                        ));
                        assert(window_count(wv, j - 1, k - cnt) == 1 + window_count(
                            wv,
                            j - 2,
                            k - cnt - 1,
                        ));
                        assert(window_fits(wv, j - 1, k - cnt, acc0) <==> window_fits(
                            wv,
                            j - 2,
                            k - cnt - 1,
                            rat_add(acc0, x@),
                        ));
                    }
                    cnt = cnt + 1;
                },
                None => {
                    proof {
                        assert(window_sum(wv, j - 1, k - cnt, acc@) == window_sum(
                            wv,
                            j - 2,
                            k - cnt,
                            acc@,
                        ));
                    }
                },
            }
            j = j - 1;
        }
        proof {
            lemma_window_count_bound(wv, j - 1, k - cnt);
            assert(window_count(wv, j - 1, k - cnt) == 0);
            assert(window_count(wv, i as int, k as int) == cnt);
            assert(window_sum(wv, i as int, k as int, rat_of_int(0)) == acc@);
            assert(wv[i as int] == cell_rat(w@[i as int]));
            assert(wv[i as int] is Some);
        }
        if cnt == 0 {
            out.push(None);
            proof {
                assert(ma_cell(rv, *nh, k as int, i as int) is None);
            }
        } else {
            let den = Frac { num: cnt as i128, den: 1 };
            match acc.checked_div(den) {
                Some(f) => {
                    proof {
                        assert(ma_cell(rv, *nh, k as int, i as int) == Some(
                            rat_div(
                                window_sum(wv, i as int, k as int, rat_of_int(0)),
                                rat_of_int(cnt as int),
                            ),
                        ));
                        assert(f@ == rat_div(acc@, rat_of_int(cnt as int)));
                    }
                    out.push(Some(f));
                },
                None => {
                    proof {
                        assert(!rat_div_fits(
                            window_sum(wv, i as int, k as int, rat_of_int(0)),
                            rat_of_int(cnt as int),
                        ));
                        assert(!ma_fits(rv, *nh, k as int, i as int));
                    }
                    return Err(TransformError::NumericOverflow);
                },
            }
        }
        }
    }
    Ok(out)
}

// ---------------------------------------------------------------------------
// Z-score
// ---------------------------------------------------------------------------
/// How many of the first `n` cells are non-null.
pub open spec fn count_some(v: Seq<Option<Rational>>, n: int) -> int
    decreases n,
{
    if n <= 0 {
        0
    } else {
        count_some(v, n - 1) + (if v[n - 1] is Some {
            1int
        } else {
            0int
        })
    }
}

/// The running sum of squared deviations from the mean over the non-null
/// cells among the first `n`.
pub open spec fn var_sum(v: Seq<Option<Rational>>, mean: Rational, n: int) -> Rational
    decreases n,
{
    if n <= 0 {
        rat_of_int(0)
    } else {
        match v[n - 1] {
            Some(x) => rat_add(
                var_sum(v, mean, n - 1),
                rat_mul(rat_sub(x, mean), rat_sub(x, mean)),
            ),
            None => var_sum(v, mean, n - 1),
        }
    }
}

/// Whether every step of the squared-deviation sum fits the machine.
pub open spec fn var_fits(v: Seq<Option<Rational>>, mean: Rational, n: int) -> bool
    decreases n,
{
    if n <= 0 {
        true
    } else {
        var_fits(v, mean, n - 1) && (match v[n - 1] {
            Some(x) => sub_ok(x, mean) && mul_ok(rat_sub(x, mean), rat_sub(x, mean)) && add_ok(
                var_sum(v, mean, n - 1),
                rat_mul(rat_sub(x, mean), rat_sub(x, mean)),
            ),
            None => true,
        })
    }
}

proof fn lemma_var_fits_prefix(v: Seq<Option<Rational>>, mean: Rational, m: int, n: int)
    requires
        m <= n,
        var_fits(v, mean, n),
    ensures
        var_fits(v, mean, m),
    decreases n - m,
{
    if m < n {
        lemma_var_fits_prefix(v, mean, m, n - 1);
    }
}

proof fn lemma_count_some_mono(v: Seq<Option<Rational>>, i: int, j: int)
    requires
        i <= j,
    ensures
        count_some(v, i) <= count_some(v, j),
    decreases j - i,
{
    if i < j {
        lemma_count_some_mono(v, i, j - 1);
    }
}

/// The population mean of the non-null cells.
pub open spec fn z_mean(v: Seq<Option<Rational>>) -> Rational {
    rat_div(cum_rat(v, v.len() as int), rat_of_int(count_some(v, v.len() as int)))
}

/// The population variance of the non-null cells.
pub open spec fn z_variance(v: Seq<Option<Rational>>) -> Rational {
    rat_div(var_sum(v, z_mean(v), v.len() as int), rat_of_int(count_some(v, v.len() as int)))
}

/// The variance scaled to eighteen decimal digits, whose integer square
/// root gives the standard deviation at nine-digit precision.
pub open spec fn z_scaled(v: Seq<Option<Rational>>) -> int {
    z_variance(v).n * 1_000_000_000_000_000_000 / z_variance(v).d
}

/// The engine's standard deviation: the floor square root of the scaled
/// variance, over the nine-digit scale.
pub open spec fn z_stddev(v: Seq<Option<Rational>>) -> Rational {
    Rational { n: crate::intmath::floor_sqrt(z_scaled(v)), d: 1_000_000_000 }
}

/// The z-score cell of row `i`: the deviation from the mean over the
/// standard deviation; null where the input is null or the standard
/// deviation is zero.
pub open spec fn zscore_cell(v: Seq<Option<Rational>>, i: int) -> Option<Rational> {
    if count_some(v, v.len() as int) == 0 {
        None
    } else {
        match v[i] {
            Some(x) => if crate::intmath::floor_sqrt(z_scaled(v)) <= 0 {
                None
            } else {
                Some(rat_div(rat_sub(x, z_mean(v)), z_stddev(v)))
            },
            None => None,
        }
    }
}

pub open spec fn zcell_fits(v: Seq<Option<Rational>>, i: int) -> bool {
    match v[i] {
        Some(x) => sub_ok(x, z_mean(v)) && (crate::intmath::floor_sqrt(z_scaled(v)) > 0
            ==> rat_div_fits(rat_sub(x, z_mean(v)), z_stddev(v))),
        None => true,
    }
}

/// Whether the whole z-score computation fits the machine.
pub open spec fn zscore_fits(v: Seq<Option<Rational>>) -> bool {
    let n = v.len() as int;
    let cnt = count_some(v, n);
    cnt == 0 || {
        &&& cum_rat_fits(v, n)
        &&& rat_div_fits(cum_rat(v, n), rat_of_int(cnt))
        &&& var_fits(v, z_mean(v), n)
        &&& rat_div_fits(var_sum(v, z_mean(v), n), rat_of_int(cnt))
        &&& z_variance(v).n * 1_000_000_000_000_000_000 <= i128::MAX
        &&& forall|i: int| 0 <= i < n ==> zcell_fits(v, i)
    }
}

/// Computes z-scores over fractional cells: each non-null cell's deviation
/// from the population mean, divided by the population standard deviation
/// (taken at nine-digit precision); null where the input is null or the
/// standard deviation is zero.
pub fn zscore_fracs(v: &Vec<Option<Frac>>) -> (r: Result<Vec<Option<Frac>>, TransformError>)
    requires
        forall|i: int| 0 <= i < v@.len() ==> frac_cell_ok(#[trigger] v@[i]),
    ensures
        match r {
            Ok(out) => {
                &&& v@.len() > 0
                &&& out@.len() == v@.len()
                &&& forall|i: int| 0 <= i < out@.len() ==> frac_cell_ok(#[trigger] out@[i])
                &&& forall|i: int|
                    0 <= i < out@.len() ==> #[trigger] cell_rat(out@[i]) == zscore_cell(
                        rat_cells(v@),
                        i,
                    )
            },
            Err(e) => (e is EmptyInput && v@.len() == 0) || (e
                is NumericOverflow && !zscore_fits(rat_cells(v@))),
        },
{
    let ghost rv = rat_cells(v@);
    let n = v.len();
    if n == 0 {
        return Err(TransformError::EmptyInput);
    }
    // First pass: count and sum the non-null cells.
    let mut cnt: usize = 0;
    let mut sum = Frac::from_int(0);
    for i in 0..n
        invariant
            n == v@.len(),
            rv == rat_cells(v@),
            forall|q: int| 0 <= q < v@.len() ==> frac_cell_ok(#[trigger] v@[q]),
            cnt == count_some(rv, i as int),
            cnt <= i,
            sum@ == cum_rat(rv, i as int),
            sum.wf(),
            sum.num > i128::MIN,
            cum_rat_fits(rv, i as int),
    {
        proof {
            assert(rv[i as int] == cell_rat(v@[i as int]));
        }
        match v[i] {
            Some(x) => {
                sum = match sum.checked_add(x) {
                    Some(a) => a,
                    None => {
                        proof {
                            lemma_count_some_mono(rv, i + 1, rv.len() as int);
                            if cum_rat_fits(rv, rv.len() as int) {
                                lemma_cum_rat_fits_prefix(rv, i + 1, rv.len() as int);
                            }
                        }
                        return Err(TransformError::NumericOverflow);
                    },
                };
                if sum.num == i128::MIN {
                    proof {
                        lemma_count_some_mono(rv, i + 1, rv.len() as int);
                        if cum_rat_fits(rv, rv.len() as int) {
                            lemma_cum_rat_fits_prefix(rv, i + 1, rv.len() as int);
                        }
                    }
                    return Err(TransformError::NumericOverflow);
                }
                cnt = cnt + 1;
            },
            None => {},
        }
    }
    let mut out: Vec<Option<Frac>> = Vec::new();
    if cnt == 0 {
        for i in 0..n
            invariant
                n == v@.len(),
                rv == rat_cells(v@),
                count_some(rv, rv.len() as int) == 0,
                out@.len() == i,
                forall|j: int| 0 <= j < i ==> (#[trigger] out@[j]) is None,
        {
            out.push(None);
        }
        proof {
            assert forall|i: int| 0 <= i < out@.len() implies #[trigger] cell_rat(out@[i])
                == zscore_cell(rv, i) by {
                assert(out@[i] is None);
            }
        }
        return Ok(out);
    }
    let cnt_frac = Frac { num: cnt as i128, den: 1 };
    let mean = match sum.checked_div(cnt_frac) {
        Some(m) => m,
        None => {
            return Err(TransformError::NumericOverflow);
        },
    };
    proof {
        assert(mean@ == z_mean(rv));
    }
    // Second pass: sum of squared deviations.
    let mut vs = Frac::from_int(0);
    for i in 0..n
        invariant
            n == v@.len(),
            rv == rat_cells(v@),
            forall|q: int| 0 <= q < v@.len() ==> frac_cell_ok(#[trigger] v@[q]),
            mean@ == z_mean(rv),
            mean.wf(),
            cnt == count_some(rv, rv.len() as int),
            cnt > 0,
            vs@ == var_sum(rv, mean@, i as int),
            vs.wf(),
            vs.num >= 0,
            var_fits(rv, mean@, i as int),
    {
        proof {
            assert(rv[i as int] == cell_rat(v@[i as int]));
        }
        match v[i] {
            Some(x) => {
                let d = match x.checked_sub(mean) {
                    Some(d) => d,
                    None => {
                        proof {
                            if var_fits(rv, mean@, rv.len() as int) {
                                lemma_var_fits_prefix(rv, mean@, i + 1, rv.len() as int);
                            }
                        }
                        return Err(TransformError::NumericOverflow);
                    },
                };
                if d.num == i128::MIN {
                    proof {
                        if var_fits(rv, mean@, rv.len() as int) {
                            lemma_var_fits_prefix(rv, mean@, i + 1, rv.len() as int);
                        }
                    }
                    return Err(TransformError::NumericOverflow);
                }
                let sq = match d.checked_mul(d) {
                    Some(s) => s,
                    None => {
                        proof {
                            if var_fits(rv, mean@, rv.len() as int) {
                                lemma_var_fits_prefix(rv, mean@, i + 1, rv.len() as int);
                            }
                        }
                        return Err(TransformError::NumericOverflow);
                    },
                };
                proof {
                    assert(sq.num >= 0) by (nonlinear_arith)
                        requires
                            sq.num == d.num * d.num,
                    ;
                }
                let vs2 = match vs.checked_add(sq) {
                    Some(a) => a,
                    None => {
                        proof {
                            if var_fits(rv, mean@, rv.len() as int) {
                                lemma_var_fits_prefix(rv, mean@, i + 1, rv.len() as int);
                            }
                        }
                        return Err(TransformError::NumericOverflow);
                    },
                };
                proof {
                    assert(vs2.num >= 0) by (nonlinear_arith)
                        requires
                            vs2.num as int == vs.num * sq.den + sq.num * vs.den,
                            vs.num >= 0,
                            sq.num >= 0,
                            vs.den > 0,
                            sq.den > 0,
                    ;
                }
                vs = vs2;
            },
            None => {},
        }
    }
    let variance = match vs.checked_div(cnt_frac) {
        Some(x) => x,
        None => {
            return Err(TransformError::NumericOverflow);
        },
    };
    proof {
        assert(variance@ == z_variance(rv));
        assert(variance.num >= 0);
    }
    let scaled_num = match variance.num.checked_mul(1_000_000_000_000_000_000) {
        Some(x) => x,
        None => {
            proof {
                assert(variance.num * 1_000_000_000_000_000_000 > i128::MAX) by (nonlinear_arith)
                    requires
                        variance.num >= 0,
                        !(i128::MIN <= variance.num * 1_000_000_000_000_000_000 <= i128::MAX),
                ;
            }
            return Err(TransformError::NumericOverflow);
        },
    };
    let scaled: u128 = (scaled_num as u128) / (variance.den as u128);
    proof {
        assert(scaled == z_scaled(rv));
    }
    let s = crate::intmath::isqrt_u128(scaled);
    if s == 0 {
        for i in 0..n
            invariant
                n == v@.len(),
                rv == rat_cells(v@),
                count_some(rv, rv.len() as int) > 0,
                crate::intmath::floor_sqrt(z_scaled(rv)) == 0,
                out@.len() == i,
                forall|j: int| 0 <= j < i ==> (#[trigger] out@[j]) is None,
        {
            out.push(None);
        }
        proof {
            assert forall|i: int| 0 <= i < out@.len() implies #[trigger] cell_rat(out@[i])
                == zscore_cell(rv, i) by {
                assert(out@[i] is None);
            }
        }
        return Ok(out);
    }
    let stddev = Frac { num: s as i128, den: 1_000_000_000 };
    proof {
        assert(stddev@ == z_stddev(rv));
    }
    for i in 0..n
        invariant
            n == v@.len(),
            rv == rat_cells(v@),
            forall|q: int| 0 <= q < v@.len() ==> frac_cell_ok(#[trigger] v@[q]),
            mean@ == z_mean(rv),
            mean.wf(),
            cnt == count_some(rv, rv.len() as int),
            cnt > 0,
            stddev@ == z_stddev(rv),
            stddev.wf(),
            stddev.num > 0,
            crate::intmath::floor_sqrt(z_scaled(rv)) == stddev.num,
            out@.len() == i,
            forall|j: int| 0 <= j < i ==> frac_cell_ok(#[trigger] out@[j]),
            forall|j: int|
                0 <= j < i ==> #[trigger] cell_rat(out@[j]) == zscore_cell(rv, j),
    {
        proof {
            assert(rv[i as int] == cell_rat(v@[i as int]));
        }
        match v[i] {
            Some(x) => {
                let d = match x.checked_sub(mean) {
                    Some(d) => d,
                    None => {
                        proof {
                            assert(!zcell_fits(rv, i as int));
                        }
                        return Err(TransformError::NumericOverflow);
                    },
                };
                if d.num == i128::MIN {
                    proof {
                        assert(!zcell_fits(rv, i as int));
                    }
                    return Err(TransformError::NumericOverflow);
                }
                match d.checked_div(stddev) {
                    Some(z) => {
                        out.push(Some(z));
                    },
                    None => {
                        proof {
                            assert(!zcell_fits(rv, i as int));
                        }
                        return Err(TransformError::NumericOverflow);
                    },
                }
            },
            None => {
                out.push(None);
            },
        }
    }
    Ok(out)
}

// ---------------------------------------------------------------------------
// Law: percentages sum to one hundred
// ---------------------------------------------------------------------------
/// The sum of the values, as the pair the left-to-right scan produces.
pub open spec fn rat_sum(vals: Seq<Rational>, n: int) -> Rational
    decreases n,
{
    if n <= 0 {
        rat_of_int(0)
    } else {
        rat_add(rat_sum(vals, n - 1), vals[n - 1])
    }
}

/// The sum of the percentage cells.
pub open spec fn pct_sum(vals: Seq<Rational>, total: Rational, n: int) -> Rational
    decreases n,
{
    if n <= 0 {
        rat_of_int(0)
    } else {
        rat_add(
            pct_sum(vals, total, n - 1),
            rat_div(rat_mul(vals[n - 1], rat_of_int(100)), total),
        )
    }
}

proof fn lemma_rat_sum_wf(vals: Seq<Rational>, n: int)
    requires
        forall|i: int| 0 <= i < vals.len() ==> rat_wf(#[trigger] vals[i]),
        n <= vals.len(),
    ensures
        rat_wf(rat_sum(vals, n)),
    decreases n,
{
    if n > 0 {
        lemma_rat_sum_wf(vals, n - 1);
        crate::frac::lemma_rat_add_wf(rat_sum(vals, n - 1), vals[n - 1]);
    }
}

proof fn lemma_pct_term_wf(x: Rational, total: Rational)
    requires
        rat_wf(x),
        rat_wf(total),
        !rat_is_zero(total),
    ensures
        rat_wf(rat_div(rat_mul(x, rat_of_int(100)), total)),
{
    crate::frac::lemma_rat_add_wf(x, rat_of_int(100));
    crate::frac::lemma_rat_div_wf(rat_mul(x, rat_of_int(100)), total);
}

proof fn lemma_pct_sum_wf(vals: Seq<Rational>, total: Rational, n: int)
    requires
        forall|i: int| 0 <= i < vals.len() ==> rat_wf(#[trigger] vals[i]),
        rat_wf(total),
        !rat_is_zero(total),
        n <= vals.len(),
    ensures
        rat_wf(pct_sum(vals, total, n)),
    decreases n,
{
    if n > 0 {
        lemma_pct_sum_wf(vals, total, n - 1);
        lemma_pct_term_wf(vals[n - 1], total);
        crate::frac::lemma_rat_add_wf(
            pct_sum(vals, total, n - 1),
            rat_div(rat_mul(vals[n - 1], rat_of_int(100)), total),
        );
    }
}

/// Two percentage terms over the same total combine into the percentage of
/// the combined value.
proof fn lemma_pct_step(s: Rational, x: Rational, t: Rational)
    requires
        rat_wf(s),
        rat_wf(x),
        rat_wf(t),
        !rat_is_zero(t),
    ensures
        rat_eq(
            rat_add(
                rat_div(rat_mul(s, rat_of_int(100)), t),
                rat_div(rat_mul(x, rat_of_int(100)), t),
            ),
            rat_div(rat_mul(rat_add(s, x), rat_of_int(100)), t),
        ),
{
    let r100 = rat_of_int(100);
    let m1 = rat_mul(s, r100);
    let m2 = rat_mul(x, r100);
    let it = crate::frac::rat_inv(t);
    crate::frac::lemma_rat_div_as_mul(m1, t);
    crate::frac::lemma_rat_div_as_mul(m2, t);
    let sx = rat_add(s, x);
    let m3 = rat_mul(sx, r100);
    crate::frac::lemma_rat_div_as_mul(m3, t);
    // Well-formedness of every intermediate.
    crate::frac::lemma_rat_add_wf(s, r100);
    crate::frac::lemma_rat_add_wf(x, r100);
    crate::frac::lemma_rat_add_wf(s, x);
    crate::frac::lemma_rat_add_wf(sx, r100);
    crate::frac::lemma_rat_add_wf(m1, it);
    crate::frac::lemma_rat_add_wf(m2, it);
    crate::frac::lemma_rat_add_wf(m1, m2);
    crate::frac::lemma_rat_add_wf(rat_mul(m1, it), rat_mul(m2, it));
    crate::frac::lemma_rat_add_wf(rat_add(m1, m2), it);
    crate::frac::lemma_rat_add_wf(m3, it);
    // (m1/t) + (m2/t) ~ (m1 + m2) * (1/t) ~ ((s + x) * 100) * (1/t) = rhs.
    crate::frac::lemma_rat_mul_distrib(m1, m2, it);
    crate::frac::lemma_rat_mul_distrib(s, x, r100);
    crate::frac::lemma_rat_mul_congruence(rat_add(m1, m2), m3, it);
    crate::frac::lemma_rat_eq_trans(
        rat_add(rat_mul(m1, it), rat_mul(m2, it)),
        rat_mul(rat_add(m1, m2), it),
        rat_mul(m3, it),
    );
}

/// The percentage of the total itself is one hundred.
proof fn lemma_pct_of_total(s: Rational, t: Rational)
    requires
        rat_wf(s),
        rat_wf(t),
        !rat_is_zero(t),
        rat_eq(s, t),
    ensures
        rat_eq(rat_div(rat_mul(s, rat_of_int(100)), t), rat_of_int(100)),
{
    let lhs = rat_div(rat_mul(s, rat_of_int(100)), t);
    if t.n > 0 {
        assert(lhs.n * 1 == 100 * lhs.d) by (nonlinear_arith)
            requires
                lhs.n == (100 * s.n) * t.d,
                lhs.d == s.d * t.n,
                s.n * t.d == t.n * s.d,
        ;
    } else {
        assert(lhs.n * 1 == 100 * lhs.d) by (nonlinear_arith)
            requires
                lhs.n == -((100 * s.n) * t.d),
                lhs.d == -(s.d * t.n),
                s.n * t.d == t.n * s.d,
        ;
    }
}

proof fn lemma_pct_sum_closed(vals: Seq<Rational>, total: Rational, n: int)
    requires
        forall|i: int| 0 <= i < vals.len() ==> rat_wf(#[trigger] vals[i]),
        rat_wf(total),
        !rat_is_zero(total),
        0 <= n <= vals.len(),
    ensures
        rat_eq(
            pct_sum(vals, total, n),
            rat_div(rat_mul(rat_sum(vals, n), rat_of_int(100)), total),
        ),
    decreases n,
{
    if n == 0 {
        assert(pct_sum(vals, total, 0) == rat_of_int(0));
        assert(rat_sum(vals, 0) == rat_of_int(0));
        let rhs = rat_div(rat_mul(rat_of_int(0), rat_of_int(100)), total);
        assert(rat_mul(rat_of_int(0), rat_of_int(100)) == rat_of_int(0));
        assert(rhs.n == 0) by (nonlinear_arith)
            requires
                rhs == rat_div(rat_of_int(0), total),
        ;
        assert(rat_eq(rat_of_int(0), rhs)) by (nonlinear_arith)
            requires
                rhs.n == 0,
        ;
    } else {
        lemma_pct_sum_closed(vals, total, n - 1);
        let sp = pct_sum(vals, total, n - 1);
        let x = vals[n - 1];
        let s = rat_sum(vals, n - 1);
        let term = rat_div(rat_mul(x, rat_of_int(100)), total);
        let sp_closed = rat_div(rat_mul(s, rat_of_int(100)), total);
        lemma_rat_sum_wf(vals, n - 1);
        lemma_pct_sum_wf(vals, total, n - 1);
        lemma_pct_term_wf(x, total);
        lemma_pct_term_wf(s, total);
        // Replace the accumulated sum by its closed form, then combine the
        // two percentage terms.
        crate::frac::lemma_rat_add_congruence(sp, sp_closed, term);
        lemma_pct_step(s, x, total);
        crate::frac::lemma_rat_add_wf(sp, term);
        crate::frac::lemma_rat_add_wf(sp_closed, term);
        crate::frac::lemma_rat_add_wf(s, x);
        lemma_pct_term_wf(rat_add(s, x), total);
        crate::frac::lemma_rat_eq_trans(
            rat_add(sp, term),
            rat_add(sp_closed, term),
            rat_div(rat_mul(rat_add(s, x), rat_of_int(100)), total),
        );
        assert(pct_sum(vals, total, n) == rat_add(sp, term));
        assert(rat_sum(vals, n) == rat_add(s, x));
    }
}

/// Law: for a column with no nulls and a nonzero total, the percentages
/// sum to exactly one hundred.
pub proof fn lemma_percentage_sums_to_100(vals: Seq<Rational>, total: Rational)
    requires
        forall|i: int| 0 <= i < vals.len() ==> rat_wf(#[trigger] vals[i]),
        rat_wf(total),
        !rat_is_zero(total),
        rat_eq(total, rat_sum(vals, vals.len() as int)),
    ensures
        rat_eq(pct_sum(vals, total, vals.len() as int), rat_of_int(100)),
{
    let n = vals.len() as int;
    let s = rat_sum(vals, n);
    lemma_pct_sum_closed(vals, total, n);
    lemma_rat_sum_wf(vals, n);
    // total ~ s, so the closed form is the percentage of the total itself.
    assert(rat_eq(s, total)) by {
        assert(total.n * s.d == s.n * total.d);
    }
    lemma_pct_of_total(s, total);
    lemma_pct_sum_wf(vals, total, n);
    lemma_pct_term_wf(s, total);
    crate::frac::lemma_rat_eq_trans(
        pct_sum(vals, total, n),
        rat_div(rat_mul(s, rat_of_int(100)), total),
        rat_of_int(100),
    );
}

// ---------------------------------------------------------------------------
// Law: delta and cumulative sum round-trip
// ---------------------------------------------------------------------------
/// Law: running the cumulative sum (any null handling that keeps non-null
/// rows, here the skipping one) over the delta column restores each value's
/// offset from the first row, wherever no nulls intervene: for an integer
/// column with rows `0..=i` non-null, the cumulative sum of the deltas at
/// row `i` equals `v[i] - v[0]`.
pub proof fn lemma_delta_round_trip_int(v: Seq<Option<i64>>, w: Seq<Option<i64>>, i: int)
    requires
        v.len() == w.len(),
        1 <= i < v.len(),
        forall|j: int| 0 <= j <= i ==> (#[trigger] v[j]) is Some,
        w[0] is None,
        forall|j: int|
            1 <= j <= i ==> #[trigger] w[j] == Some(
                (v[j]->Some_0 - v[j - 1]->Some_0) as i64,
            ) && i64::MIN <= v[j]->Some_0 - v[j - 1]->Some_0 <= i64::MAX,
    ensures
        cum_int(w, i + 1) == v[i]->Some_0 - v[0]->Some_0,
    decreases i,
{
    if i == 1 {
        assert(cum_int(w, 0) == 0);
        assert(cum_int(w, 1) == 0);
    } else {
        lemma_delta_round_trip_int(v, w, i - 1);
    }
}

/// The same law for a fractional column, up to equality of rationals:
/// with rows `0..=i` non-null, the cumulative sum of the deltas at row `i`
/// equals `v[i] - v[0]`.
pub proof fn lemma_delta_round_trip_rat(
    v: Seq<Option<Rational>>,
    w: Seq<Option<Rational>>,
    i: int,
)
    requires
        v.len() == w.len(),
        1 <= i < v.len(),
        forall|j: int|
            0 <= j <= i ==> ((#[trigger] v[j]) matches Some(x) && rat_wf(x)),
        w[0] is None,
        forall|j: int|
            1 <= j <= i ==> #[trigger] w[j] == Some(rat_sub(v[j]->Some_0, v[j - 1]->Some_0)),
    ensures
        rat_eq(cum_rat(w, i + 1), rat_sub(v[i]->Some_0, v[0]->Some_0)),
    decreases i,
{
    let a = v[i]->Some_0;
    let b = v[i - 1]->Some_0;
    let c = v[0]->Some_0;
    if i == 1 {
        assert(cum_rat(w, 0) == rat_of_int(0));
        assert(cum_rat(w, 1) == rat_of_int(0));
        let s = rat_add(rat_of_int(0), rat_sub(a, c));
        assert(cum_rat(w, 2) == s);
        assert(rat_eq(s, rat_sub(a, c))) by (nonlinear_arith)
            requires
                s == rat_add(rat_of_int(0), rat_sub(a, c)),
                rat_wf(a),
                rat_wf(c),
        ;
    } else {
        lemma_delta_round_trip_rat(v, w, i - 1);
        let prev = cum_rat(w, i);
        let cur = cum_rat(w, i + 1);
        assert(cur == rat_add(prev, rat_sub(a, b)));
        lemma_cum_rat_wf_from(v, w, i);
        crate::frac::lemma_rat_add_wf(a, b);
        crate::frac::lemma_rat_add_wf(b, c);
        crate::frac::lemma_rat_add_wf(a, c);
        // prev ~ b - c, so prev + (a - b) ~ (b - c) + (a - b) ~ a - c.
        crate::frac::lemma_rat_add_congruence(prev, rat_sub(b, c), rat_sub(a, b));
        crate::frac::lemma_rat_telescope(a, b, c);
        crate::frac::lemma_rat_add_wf(prev, rat_sub(a, b));
        crate::frac::lemma_rat_add_wf(rat_sub(b, c), rat_sub(a, b));
        crate::frac::lemma_rat_eq_trans(
            cur,
            rat_add(rat_sub(b, c), rat_sub(a, b)),
            rat_sub(a, c),
        );
    }
}

proof fn lemma_cum_rat_wf_from(v: Seq<Option<Rational>>, w: Seq<Option<Rational>>, i: int)
    requires
        v.len() == w.len(),
        1 <= i < v.len(),
        forall|j: int|
            0 <= j <= i ==> ((#[trigger] v[j]) matches Some(x) && rat_wf(x)),
        w[0] is None,
        forall|j: int|
            1 <= j <= i ==> #[trigger] w[j] == Some(rat_sub(v[j]->Some_0, v[j - 1]->Some_0)),
    ensures
        rat_wf(cum_rat(w, i)),
    decreases i,
{
    if i == 1 {
        assert(cum_rat(w, 0) == rat_of_int(0));
        assert(cum_rat(w, 1) == rat_of_int(0));
    } else {
        lemma_cum_rat_wf_from(v, w, i - 1);
        crate::frac::lemma_rat_add_wf(v[i - 1]->Some_0, v[i - 2]->Some_0);
        crate::frac::lemma_rat_add_wf(
            cum_rat(w, i - 1),
            rat_sub(v[i - 1]->Some_0, v[i - 2]->Some_0),
        );
    }
}

} // verus!
