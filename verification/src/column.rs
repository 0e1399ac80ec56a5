use vstd::prelude::*;
use vstd::string::StringExecFns;
use crate::error::TransformError;
use crate::frac::Frac;
use crate::intmath::{count_factor, emod_i64, floor_div_i64, gcd, gcd_u128, lemma_pow_nat_gt_exp,
    lemma_pow_nat_pos, pow_nat};
use vstd::arithmetic::div_mod::lemma_fundamental_div_mod;
use crate::text::{dec_i128, dec_str, dec_digits, dec_u128, pad2, pad2_chars, pad3, pad3_chars,
    pad_digits};

verus! {

/// Resolution of a native timestamp column.
#[derive(Debug, Clone, Copy, PartialEq, Eq, Structural)]
pub enum TimeUnit {
    Second,
    Millisecond,
    Microsecond,
    Nanosecond,
}

impl TimeUnit {
    /// Ticks per second of the unit.
    pub open spec fn scale_spec(self) -> int {
        match self {
            TimeUnit::Second => 1,
            TimeUnit::Millisecond => 1000,
            TimeUnit::Microsecond => 1000000,
            TimeUnit::Nanosecond => 1000000000,
        }
    }

    pub fn scale(self) -> (r: i64)
        ensures
            r == self.scale_spec(),
            1 <= r <= 1000000000,
    {
        match self {
            TimeUnit::Second => 1,
            TimeUnit::Millisecond => 1000,
            TimeUnit::Microsecond => 1000000,
            TimeUnit::Nanosecond => 1000000000,
        }
    }
}

/// The closed set of physical column types the engine dispatches over.
#[derive(Debug, Clone, Copy, PartialEq, Eq, Structural)]
pub enum PhysicalType {
    Int32,
    Int64,
    Float32,
    Float64,
    Boolean,
    Utf8,
    Date,
    Timestamp(TimeUnit),
}

/// Column storage: one vector per physical type, a `None` cell standing for
/// an unset validity bit. Fractional cells stand for floating-point storage,
/// holding the numeric value exactly.
#[derive(Debug, Clone)]
pub enum ColumnData {
    Int32(Vec<Option<i32>>),
    Int64(Vec<Option<i64>>),
    Float32(Vec<Option<Frac>>),
    Float64(Vec<Option<Frac>>),
    Boolean(Vec<Option<bool>>),
    Utf8(Vec<Option<String>>),
    /// Days since the epoch.
    Date(Vec<Option<i32>>),
    /// Ticks of the given unit since the epoch.
    Timestamp(TimeUnit, Vec<Option<i64>>),
}

impl ColumnData {
    pub open spec fn len_spec(&self) -> nat {
        match self {
            ColumnData::Int32(v) => v@.len(),
            ColumnData::Int64(v) => v@.len(),
            ColumnData::Float32(v) => v@.len(),
            ColumnData::Float64(v) => v@.len(),
            ColumnData::Boolean(v) => v@.len(),
            ColumnData::Utf8(v) => v@.len(),
            ColumnData::Date(v) => v@.len(),
            ColumnData::Timestamp(_, v) => v@.len(),
        }
    }

    /// Every fractional cell has a positive denominator and a numerator
    /// whose magnitude can be rendered.
    pub open spec fn wf(&self) -> bool {
        match self {
            ColumnData::Float32(v) => forall|i: int|
                0 <= i < v@.len() ==> frac_cell_ok(#[trigger] v@[i]),
            ColumnData::Float64(v) => forall|i: int|
                0 <= i < v@.len() ==> frac_cell_ok(#[trigger] v@[i]),
            _ => true,
        }
    }

    pub open spec fn ptype_spec(&self) -> PhysicalType {
        match self {
            ColumnData::Int32(_) => PhysicalType::Int32,
            ColumnData::Int64(_) => PhysicalType::Int64,
            ColumnData::Float32(_) => PhysicalType::Float32,
            ColumnData::Float64(_) => PhysicalType::Float64,
            ColumnData::Boolean(_) => PhysicalType::Boolean,
            ColumnData::Utf8(_) => PhysicalType::Utf8,
            ColumnData::Date(_) => PhysicalType::Date,
            ColumnData::Timestamp(u, _) => PhysicalType::Timestamp(*u),
        }
    }

    pub open spec fn cell_is_null(&self, i: int) -> bool {
        match self {
            ColumnData::Int32(v) => v@[i] is None,
            ColumnData::Int64(v) => v@[i] is None,
            ColumnData::Float32(v) => v@[i] is None,
            ColumnData::Float64(v) => v@[i] is None,
            ColumnData::Boolean(v) => v@[i] is None,
            ColumnData::Utf8(v) => v@[i] is None,
            ColumnData::Date(v) => v@[i] is None,
            ColumnData::Timestamp(_, v) => v@[i] is None,
        }
    }

    pub fn len(&self) -> (r: usize)
        ensures
            r == self.len_spec(),
    {
        match self {
            ColumnData::Int32(v) => v.len(),
            ColumnData::Int64(v) => v.len(),
            ColumnData::Float32(v) => v.len(),
            ColumnData::Float64(v) => v.len(),
            ColumnData::Boolean(v) => v.len(),
            ColumnData::Utf8(v) => v.len(),
            ColumnData::Date(v) => v.len(),
            ColumnData::Timestamp(_, v) => v.len(),
        }
    }

    pub fn physical_type(&self) -> (r: PhysicalType)
        ensures
            r == self.ptype_spec(),
    {
        match self {
            ColumnData::Int32(_) => PhysicalType::Int32,
            ColumnData::Int64(_) => PhysicalType::Int64,
            ColumnData::Float32(_) => PhysicalType::Float32,
            ColumnData::Float64(_) => PhysicalType::Float64,
            ColumnData::Boolean(_) => PhysicalType::Boolean,
            ColumnData::Utf8(_) => PhysicalType::Utf8,
            ColumnData::Date(_) => PhysicalType::Date,
            ColumnData::Timestamp(u, _) => PhysicalType::Timestamp(*u),
        }
    }
}

/// A fractional cell the engine can compute with and render.
pub open spec fn frac_cell_ok(c: Option<Frac>) -> bool {
    match c {
        Some(f) => f.den > 0 && f.num > i128::MIN,
        None => true,
    }
}

/// A named, typed column.
#[derive(Debug, Clone)]
pub struct Column {
    pub name: String,
    pub data: ColumnData,
}

impl Column {
    pub open spec fn len_spec(&self) -> nat {
        self.data.len_spec()
    }

    pub open spec fn wf(&self) -> bool {
        self.data.wf()
    }

    pub fn len(&self) -> (r: usize)
        ensures
            r == self.len_spec(),
    {
        self.data.len()
    }
}

/// An ordered set of named columns of equal length.
#[derive(Debug, Clone)]
pub struct Batch {
    pub columns: Vec<Column>,
}

impl Batch {
    /// Number of rows: the common length of all columns.
    pub open spec fn num_rows_spec(&self) -> nat {
        if self.columns@.len() == 0 {
            0
        } else {
            self.columns@[0].len_spec()
        }
    }

    /// Every column well formed and of the common length; names unique.
    pub open spec fn wf(&self) -> bool {
        &&& forall|i: int|
            0 <= i < self.columns@.len() ==> (#[trigger] self.columns@[i]).wf()
                && self.columns@[i].len_spec() == self.num_rows_spec()
        &&& forall|i: int, j: int|
            0 <= i < j < self.columns@.len() ==> (#[trigger] self.columns@[i].name@)
                != (#[trigger] self.columns@[j].name@)
    }

    pub open spec fn has_column(&self, name: Seq<char>) -> bool {
        exists|i: int| 0 <= i < self.columns@.len() && (#[trigger] self.columns@[i].name@) == name
    }

    /// An empty batch: no columns, no rows.
    pub fn new() -> (r: Batch)
        ensures
            r.wf(),
            r.columns@.len() == 0,
            r.num_rows_spec() == 0,
    {
        Batch { columns: Vec::new() }
    }

    pub fn num_rows(&self) -> (r: usize)
        ensures
            r == self.num_rows_spec(),
    {
        if self.columns.len() == 0 {
            0
        } else {
            self.columns[0].len()
        }
    }

    pub fn num_columns(&self) -> (r: usize)
        ensures
            r == self.columns@.len(),
    {
        self.columns.len()
    }

    /// Index of the column with the given name.
    pub fn column_index(&self, name: &str) -> (r: Option<usize>)
        ensures
            match r {
                Some(i) => i < self.columns@.len() && self.columns@[i as int].name@ == name@,
                None => !self.has_column(name@),
            },
    {
        let n = self.columns.len();
        for i in 0..n
            invariant
                n == self.columns@.len(),
                forall|j: int| 0 <= j < i ==> (#[trigger] self.columns@[j].name@) != name@,
        {
            if crate::text::str_eq(self.columns[i].name.as_str(), name) {
                return Some(i);
            }
        }
        None
    }

    /// Appends a column, enforcing the batch invariants: the new column
    /// must match the row count (unless the batch has no columns yet) and
    /// its name must be fresh.
    pub fn with_column(self, col: Column) -> (r: Result<Batch, TransformError>)
        requires
            self.wf(),
            col.wf(),
        ensures
            match r {
                Ok(b) => {
                    &&& b.wf()
                    &&& b.columns@ == self.columns@.push(col)
                    &&& (self.columns@.len() > 0 ==> b.num_rows_spec() == self.num_rows_spec())
                    &&& !self.has_column(col.name@)
                    &&& (self.columns@.len() > 0 ==> col.len_spec() == self.num_rows_spec())
                },
                Err(e) => {
                    &&& (e matches TransformError::DuplicateOutputName(c) ==> c@ == col.name@
                        && self.has_column(col.name@))
                    &&& (e is UnsupportedType ==> self.columns@.len() > 0 && col.len_spec()
                        != self.num_rows_spec())
                    &&& (e is DuplicateOutputName || e is UnsupportedType)
                },
            },
    {
        if self.columns.len() > 0 && col.len() != self.num_rows() {
            return Err(TransformError::UnsupportedType);
        }
        match self.column_index(col.name.as_str()) {
            Some(_) => Err(TransformError::DuplicateOutputName(col.name)),
            None => {
                let mut columns = self.columns;
                let ghost old_cols = columns@;
                columns.push(col);
                let b = Batch { columns };
                proof {
                    assert forall|i: int|
                        0 <= i < b.columns@.len() implies (#[trigger] b.columns@[i]).wf()
                        && b.columns@[i].len_spec() == b.num_rows_spec() by {
                        if i < old_cols.len() {
                            assert(b.columns@[i] == old_cols[i]);
                        }
                    }
                    assert forall|i: int, j: int|
                        0 <= i < j < b.columns@.len() implies (#[trigger] b.columns@[i].name@)
                        != (#[trigger] b.columns@[j].name@) by {
                        if j < old_cols.len() {
                        } else {
                            assert(b.columns@[j] == col);
                        }
                    }
                }
                Ok(b)
            },
        }
    }
}

// ---------------------------------------------------------------------------
// Rendering cells as text, the shared stringification used by grouping
// ---------------------------------------------------------------------------
pub open spec fn bool_chars(b: bool) -> Seq<char> {
    if b {
        seq!['t', 'r', 'u', 'e']
    } else {
        seq!['f', 'a', 'l', 's', 'e']
    }
}

/// Rendering of a fractional cell: an integer when the denominator is one,
/// otherwise numerator, slash, denominator.
/// Whether the decimal form of a reduced fraction fits the machine: the
/// scaling powers, the scaled numerator, and ten to the digit count.
pub open spec fn frac_decimal_fits(nm: nat, a: nat, b: nat, k: nat) -> bool {
    &&& pow_nat(2, (k - a) as nat) <= u128::MAX
    &&& pow_nat(5, (k - b) as nat) <= u128::MAX
    &&& nm * pow_nat(2, (k - a) as nat) <= u128::MAX
    &&& nm * pow_nat(2, (k - a) as nat) * pow_nat(5, (k - b) as nat) <= u128::MAX
    &&& pow_nat(10, k) <= u128::MAX
}

/// Rendering of a fractional cell, in canonical form. The fraction is
/// first reduced, so cells equal in value render alike. An integer
/// renders bare; a denominator made only of twos and fives renders as
/// exact decimal text with no trailing zeros; any other denominator (only
/// computed columns produce one) renders as numerator, slash, denominator.
pub open spec fn frac_chars(f: Frac) -> Seq<char> {
    let mag = (if f.num >= 0 {
        f.num as int
    } else {
        -(f.num as int)
    }) as nat;
    let g = gcd(mag, f.den as nat);
    let nm = mag / g;
    let d = (f.den as nat) / g;
    let sign: Seq<char> = if f.num < 0 {
        seq!['-']
    } else {
        Seq::empty()
    };
    if d == 1 {
        sign + dec_digits(nm)
    } else {
        let a = count_factor(d, 2);
        let rest = d / pow_nat(2, a);
        let b = count_factor(rest, 5);
        let rest2 = rest / pow_nat(5, b);
        let k = if a >= b {
            a
        } else {
            b
        };
        if rest2 == 1 && frac_decimal_fits(nm, a, b, k) {
            let scaled = nm * pow_nat(2, (k - a) as nat) * pow_nat(5, (k - b) as nat);
            sign + dec_digits(scaled / pow_nat(10, k)) + seq!['.'] + pad_digits(
                scaled % pow_nat(10, k),
                k,
            )
        } else {
            sign + dec_digits(nm) + seq!['/'] + dec_digits(d)
        }
    }
}

/// Time-of-day rendering of a timestamp cell: `HH:MM:SS` for second
/// resolution, `HH:MM:SS.mmm` for finer units, on the clock of the day the
/// instant falls in (floor semantics for instants before the epoch).
pub open spec fn time_of_day_chars(ticks: int, unit: TimeUnit) -> Seq<char> {
    let scale = unit.scale_spec();
    let secs = ticks / scale;
    let sod = secs % 86400;
    let hh = pad2_chars((sod / 3600) as nat);
    let mm = pad2_chars((sod / 60 % 60) as nat);
    let ss = pad2_chars((sod % 60) as nat);
    let base = hh + seq![':'] + mm + seq![':'] + ss;
    if unit is Second {
        base
    } else {
        let rem = ticks % scale;
        let millis = rem * 1000 / scale;
        base + seq!['.'] + pad3_chars(millis as nat)
    }
}

/// The shared stringification of a cell: empty for null, the text itself
/// for strings, decimal renderings for numbers, `true`/`false` for
/// booleans, the day number for dates, and time of day for timestamps.
pub open spec fn cell_chars(data: ColumnData, i: int) -> Seq<char> {
    match data {
        ColumnData::Int32(v) => match v@[i] {
            Some(x) => dec_str(x as int),
            None => Seq::empty(),
        },
        ColumnData::Int64(v) => match v@[i] {
            Some(x) => dec_str(x as int),
            None => Seq::empty(),
        },
        ColumnData::Float32(v) => match v@[i] {
            Some(f) => frac_chars(f),
            None => Seq::empty(),
        },
        ColumnData::Float64(v) => match v@[i] {
            Some(f) => frac_chars(f),
            None => Seq::empty(),
        },
        ColumnData::Boolean(v) => match v@[i] {
            Some(b) => bool_chars(b),
            None => Seq::empty(),
        },
        ColumnData::Utf8(v) => match v@[i] {
            Some(s) => s@,
            None => Seq::empty(),
        },
        ColumnData::Date(v) => match v@[i] {
            Some(d) => dec_str(d as int),
            None => Seq::empty(),
        },
        ColumnData::Timestamp(u, v) => match v@[i] {
            Some(t) => time_of_day_chars(t as int, u),
            None => Seq::empty(),
        },
    }
}

/// Strips every factor of `p` out of `d`, returning the count and the
/// remainder.
fn strip_factor(d: u128, p: u128) -> (r: (u128, u128))
    requires
        d >= 1,
        2 <= p,
    ensures
        r.0 as nat == count_factor(d as nat, p as nat),
        r.1 >= 1,
        r.1 as nat == (d as nat) / pow_nat(p as nat, r.0 as nat),
        (r.1 as nat) * pow_nat(p as nat, r.0 as nat) == d as nat,
{
    let mut rest = d;
    let mut a: u128 = 0;
    proof {
        assert(pow_nat(p as nat, 0) == 1);
    }
    while rest % p == 0
        invariant
            d >= 1,
            2 <= p,
            rest >= 1,
            (rest as nat) * pow_nat(p as nat, a as nat) == d as nat,
            count_factor(d as nat, p as nat) == a as nat + count_factor(rest as nat, p as nat),
            a < u128::MAX,
        decreases rest,
    {
        proof {
            lemma_fundamental_div_mod(rest as int, p as int);
            assert(rest as nat == (p as nat) * ((rest / p) as nat));
            assert(((rest / p) as nat) * pow_nat(p as nat, (a + 1) as nat) == d as nat)
                by (nonlinear_arith)
                requires
                    rest as nat == (p as nat) * ((rest / p) as nat),
                    pow_nat(p as nat, (a + 1) as nat) == (p as nat) * pow_nat(
                        p as nat,
                        a as nat,
                    ),
                    (rest as nat) * pow_nat(p as nat, a as nat) == d as nat,
            ;
            assert(count_factor(rest as nat, p as nat) == 1 + count_factor(
                (rest / p) as nat,
                p as nat,
            ));
            // The exponent stays below the machine range: the power it
            // names divides `d`.
            assert(pow_nat(p as nat, (a + 1) as nat) <= d as nat) by (nonlinear_arith)
                requires
                    ((rest / p) as nat) * pow_nat(p as nat, (a + 1) as nat) == d as nat,
                    (rest / p) as nat >= 1,
                    pow_nat(p as nat, (a + 1) as nat) >= 0,
            ;
            lemma_pow_nat_gt_exp(p as nat, (a + 1) as nat);
        }
        rest = rest / p;
        a = a + 1;
    }
    proof {
        assert(count_factor(rest as nat, p as nat) == 0);
        lemma_pow_nat_pos(p as nat, a as nat);
        vstd::arithmetic::div_mod::lemma_fundamental_div_mod_converse(
            d as int,
            pow_nat(p as nat, a as nat) as int,
            rest as int,
            0,
        );
    }
    (a, rest)
}

fn render_frac(f: Frac) -> (r: String)
    requires
        f.den > 0,
        f.num > i128::MIN,
    ensures
        r@ == frac_chars(f),
{
    proof {
        reveal_strlit("/");
        reveal_strlit(".");
        reveal_strlit("-");
    }
    let neg = f.num < 0;
    let mag: u128 = if neg {
        (-f.num) as u128
    } else {
        f.num as u128
    };
    let den: u128 = f.den as u128;
    let g = gcd_u128(mag, den);
    proof {
        crate::intmath::lemma_gcd_le(mag as nat, den as nat);
        lemma_fundamental_div_mod(den as int, g as int);
        vstd::arithmetic::div_mod::lemma_mod_bound(den as int, g as int);
        if den as int / g as int == 0 {
            assert(den as int == den as int % g as int);
            assert(false);
        }
    }
    let nm = mag / g;
    let d = den / g;
    let mut s = if neg {
        String::from_str("-")
    } else {
        String::new()
    };
    if d == 1 {
        let digits = dec_u128(nm);
        s.append(digits.as_str());
        return s;
    }
    let (a, rest) = strip_factor(d, 2);
    let (b, rest2) = strip_factor(rest, 5);
    if rest2 == 1 {
        let k = if a >= b {
            a
        } else {
            b
        };
        let parts = match (crate::intmath::pow_u128_checked(2, k - a), crate::intmath::pow_u128_checked(
            5,
            k - b,
        ), crate::intmath::pow_u128_checked(10, k)) {
            (Some(p2), Some(p5), Some(p10)) => {
                match nm.checked_mul(p2) {
                    Some(t1) => match t1.checked_mul(p5) {
                        Some(scaled) => Some((scaled, p10)),
                        None => None,
                    },
                    None => None,
                }
            },
            _ => None,
        };
        match parts {
            Some((scaled, p10)) => {
                proof {
                    lemma_pow_nat_pos(10, k as nat);
                }
                let int_digits = dec_u128(scaled / p10);
                s.append(int_digits.as_str());
                s.append(".");
                let frac_digits = crate::text::pad_digits_u128(scaled % p10, k);
                s.append(frac_digits.as_str());
                return s;
            },
            None => {},
        }
    }
    let num_digits = dec_u128(nm);
    s.append(num_digits.as_str());
    s.append("/");
    let den_digits = dec_u128(d);
    s.append(den_digits.as_str());
    s
}

fn render_time_of_day(ticks: i64, unit: TimeUnit) -> (r: String)
    ensures
        r@ == time_of_day_chars(ticks as int, unit),
{
    proof {
        reveal_strlit(":");
        reveal_strlit(".");
    }
    let scale = unit.scale();
    let secs = floor_div_i64(ticks, scale);
    let sod = emod_i64(secs, 86400);
    let mut s = pad2((sod / 3600) as u64);
    s.append(":");
    let mm = pad2((sod / 60 % 60) as u64);
    s.append(mm.as_str());
    s.append(":");
    let ss = pad2((sod % 60) as u64);
    s.append(ss.as_str());
    match unit {
        TimeUnit::Second => s,
        _ => {
            let rem = emod_i64(ticks, scale);
            let millis = (rem as u64) * 1000 / (scale as u64);
            proof {
                let g: int = rem as int;
                let sc: int = scale as int;
                assert(g * 1000 / sc < 1000) by (nonlinear_arith)
                    requires
                        0 <= g,
                        g < sc,
                        sc >= 1,
                ;
            }
            s.append(".");
            let mmm = pad3(millis);
            s.append(mmm.as_str());
            s
        },
    }
}

/// Renders one cell of a column as text; the single polymorphic
/// stringification every grouping rule compares with.
pub fn render_cell(data: &ColumnData, i: usize) -> (r: String)
    requires
        data.wf(),
        i < data.len_spec(),
    ensures
        r@ == cell_chars(*data, i as int),
{
    proof {
        reveal_strlit("true");
        reveal_strlit("false");
    }
    match data {
        ColumnData::Int32(v) => match v[i] {
            Some(x) => dec_i128(x as i128),
            None => String::new(),
        },
        ColumnData::Int64(v) => match v[i] {
            Some(x) => dec_i128(x as i128),
            None => String::new(),
        },
        ColumnData::Float32(v) => match v[i] {
            Some(f) => render_frac(f),
            None => String::new(),
        },
        ColumnData::Float64(v) => match v[i] {
            Some(f) => render_frac(f),
            None => String::new(),
        },
        ColumnData::Boolean(v) => match v[i] {
            Some(b) => {
                let r = if b {
                    String::from_str("true")
                } else {
                    String::from_str("false")
                };
                proof {
                    assert(r@ =~= bool_chars(v@[i as int]->Some_0));
                }
                r
            },
            None => String::new(),
        },
        ColumnData::Utf8(v) => match &v[i] {
            Some(s) => s.clone(),
            None => String::new(),
        },
        ColumnData::Date(v) => match v[i] {
            Some(d) => dec_i128(d as i128),
            None => String::new(),
        },
        ColumnData::Timestamp(u, v) => match v[i] {
            Some(t) => render_time_of_day(t, *u),
            None => String::new(),
        },
    }
}

} // verus!
