use vstd::prelude::*;
use crate::error::TransformError;

verus! {

/// How rows are assigned to time bins.
#[derive(Debug, Clone, PartialEq)]
pub enum TimeBinStrategy {
    /// A new bin opens when the elapsed time since the row where the bin
    /// last changed reaches the interval; boundaries drift with the data
    /// rather than aligning to absolute clock boundaries.
    FixedInterval { interval_seconds: u64, interval_format: String },
    /// Bins bounded by explicit duration offsets from the first row.
    ManualIntervals { intervals: Vec<String>, interval_string: String },
    /// A change-point detector: a new bin opens when the gap since the
    /// previous row strictly exceeds the threshold.
    ThresholdBased { threshold_seconds: u64, threshold_format: String },
}

impl TimeBinStrategy {
    /// A copy of the strategy: the same variant, parameters and texts.
    pub fn clone_strategy(&self) -> (r: TimeBinStrategy)
        ensures
            match *self {
                TimeBinStrategy::FixedInterval { interval_seconds, interval_format } => r matches
                    TimeBinStrategy::FixedInterval { interval_seconds: i2, interval_format: f2 }
                    && i2 == interval_seconds && f2@ == interval_format@,
                TimeBinStrategy::ManualIntervals { intervals, interval_string } => r matches
                    TimeBinStrategy::ManualIntervals { intervals: iv2, interval_string: s2 }
                    && iv2@.map_values(|x: String| x@) == intervals@.map_values(|x: String| x@)
                    && s2@ == interval_string@,
                TimeBinStrategy::ThresholdBased { threshold_seconds, threshold_format } => r
                    matches TimeBinStrategy::ThresholdBased {
                    threshold_seconds: t2,
                    threshold_format: g2,
                } && t2 == threshold_seconds && g2@ == threshold_format@,
            },
    {
        match self {
            TimeBinStrategy::FixedInterval { interval_seconds, interval_format } => {
                TimeBinStrategy::FixedInterval {
                    interval_seconds: *interval_seconds,
                    interval_format: interval_format.clone(),
                }
            },
            TimeBinStrategy::ManualIntervals { intervals, interval_string } => {
                let m = intervals.len();
                let mut out: Vec<String> = Vec::new();
                for i in 0..m
                    invariant
                        m == intervals@.len(),
                        out@.len() == i,
                        forall|j: int| 0 <= j < i ==> #[trigger] out@[j] == intervals@[j],
                {
                    out.push(intervals[i].clone());
                }
                proof {
                    assert(out@ =~= intervals@);
                }
                proof {
                    assert(out@.map_values(|x: String| x@) =~= intervals@.map_values(
                        |x: String| x@,
                    ));
                }
                TimeBinStrategy::ManualIntervals {
                    intervals: out,
                    interval_string: interval_string.clone(),
                }
            },
            TimeBinStrategy::ThresholdBased { threshold_seconds, threshold_format } => {
                TimeBinStrategy::ThresholdBased {
                    threshold_seconds: *threshold_seconds,
                    threshold_format: threshold_format.clone(),
                }
            },
        }
    }
}

/// A complete time-binning request against one column of one table.
#[derive(Debug, Clone)]
pub struct TimeBinConfig {
    pub selected_table: String,
    pub selected_column: String,
    pub strategy: TimeBinStrategy,
    pub output_column_name: String,
    pub output_filename: Option<String>,
}

// ---------------------------------------------------------------------------
// Fixed-interval binning, specification
// ---------------------------------------------------------------------------
/// Scan state of the fixed-interval strategy: the bin counter and the
/// timestamp at which the current bin opened.
pub struct FixedScan {
    pub counter: int,
    pub anchor: Option<i64>,
}

/// State after the first `n` cells: the anchor starts at the first
/// non-null timestamp, and whenever a non-null cell sits at or beyond one
/// interval after the anchor, a new bin opens there and the anchor moves
/// to it. Null cells change nothing.
pub open spec fn fixed_scan(cells: Seq<Option<i64>>, gap: int, n: int) -> FixedScan
    decreases n,
{
    if n <= 0 {
        FixedScan { counter: 0, anchor: None }
    } else {
        let st = fixed_scan(cells, gap, n - 1);
        match cells[n - 1] {
            Some(t) => match st.anchor {
                Some(a) => if t - a >= gap {
                    FixedScan { counter: st.counter + 1, anchor: Some(t) }
                } else {
                    st
                },
                None => FixedScan { counter: 0, anchor: Some(t) },
            },
            None => st,
        }
    }
}

/// The bin column the fixed-interval strategy produces: null exactly where
/// the input is null, else the counter value at that row.
pub open spec fn fixed_bins_ok(cells: Seq<Option<i64>>, gap: int, bins: Seq<Option<i64>>) -> bool {
    &&& bins.len() == cells.len()
    &&& forall|i: int|
        0 <= i < cells.len() ==> match #[trigger] cells[i] {
            None => bins[i] is None,
            Some(_) => bins[i] matches Some(b) && b == fixed_scan(cells, gap, i + 1).counter,
        }
}

/// Assigns fixed-interval bins over parsed timestamp cells: a new bin
/// opens when the elapsed time since the row where the bin last changed
/// reaches the interval. Empty input is refused; null cells yield null
/// bins and leave the scan state unchanged.
pub fn fixed_bins(cells: &Vec<Option<i64>>, gap: u64) -> (r: Result<
    Vec<Option<i64>>,
    TransformError,
>)
    requires
        gap <= i64::MAX,
    ensures
        match r {
            Ok(bins) => cells@.len() > 0 && fixed_bins_ok(cells@, gap as int, bins@),
            Err(e) => (e is EmptyInput && cells@.len() == 0) || (e is NumericOverflow
                && cells@.len() > i64::MAX),
        },
{
    let n = cells.len();
    if n == 0 {
        return Err(TransformError::EmptyInput);
    }
    let mut bins: Vec<Option<i64>> = Vec::new();
    let mut g: i64 = 0;
    let mut anchor: Option<i64> = None;
    for i in 0..n
        invariant
            n == cells@.len(),
            bins@.len() == i,
            g == fixed_scan(cells@, gap as int, i as int).counter,
            0 <= g <= i,
            anchor == fixed_scan(cells@, gap as int, i as int).anchor,
            gap <= i64::MAX,
            forall|j: int|
                0 <= j < i ==> match #[trigger] cells@[j] {
                    None => bins@[j] is None,
                    Some(_) => bins@[j] matches Some(b) && b == fixed_scan(
                        cells@,
                        gap as int,
                        j + 1,
                    ).counter,
                },
    {
        match cells[i] {
            Some(t) => {
                match anchor {
                    Some(a) => {
                        let diff: i128 = t as i128 - a as i128;
                        if diff >= gap as i128 {
                            g = match g.checked_add(1) {
                                Some(v) => v,
                                None => {
                                    return Err(TransformError::NumericOverflow);
                                },
                            };
                            anchor = Some(t);
                        }
                    },
                    None => {
                        proof {
                            lemma_fixed_none_zero(cells@, gap as int, i as int);
                        }
                        anchor = Some(t);
                    },
                }
                bins.push(Some(g));
            },
            None => {
                bins.push(None);
            },
        }
    }
    Ok(bins)
}

// ---------------------------------------------------------------------------
// Threshold binning, specification
// ---------------------------------------------------------------------------
/// The last non-null timestamp among the first `n` cells.
pub open spec fn last_ts(cells: Seq<Option<i64>>, n: int) -> Option<i64>
    decreases n,
{
    if n <= 0 {
        None
    } else {
        match cells[n - 1] {
            Some(t) => Some(t),
            None => last_ts(cells, n - 1),
        }
    }
}

/// The bin counter of the threshold strategy after the first `n` cells: it
/// advances when a non-null cell sits strictly more than the threshold
/// after the last non-null cell before it — a change-point detector.
pub open spec fn threshold_counter(cells: Seq<Option<i64>>, gap: int, n: int) -> int
    decreases n,
{
    if n <= 0 {
        0
    } else {
        let prev = threshold_counter(cells, gap, n - 1);
        match cells[n - 1] {
            Some(t) => match last_ts(cells, n - 1) {
                Some(last) => if t - last > gap {
                    prev + 1
                } else {
                    prev
                },
                None => prev,
            },
            None => prev,
        }
    }
}

/// The bin column the threshold strategy produces: null exactly where the
/// input is null, else the counter value at that row.
pub open spec fn threshold_bins_ok(
    cells: Seq<Option<i64>>,
    gap: int,
    bins: Seq<Option<i64>>,
) -> bool {
    &&& bins.len() == cells.len()
    &&& forall|i: int|
        0 <= i < cells.len() ==> match #[trigger] cells[i] {
            None => bins[i] is None,
            Some(_) => bins[i] matches Some(b) && b == threshold_counter(cells, gap, i + 1),
        }
}

/// Assigns threshold bins over parsed timestamp cells: a new bin opens on
/// a gap strictly above the threshold since the previous non-null row.
/// Empty input is refused; null cells yield null bins and leave the scan
/// state unchanged.
pub fn threshold_bins(cells: &Vec<Option<i64>>, gap: u64) -> (r: Result<
    Vec<Option<i64>>,
    TransformError,
>)
    requires
        gap <= i64::MAX,
    ensures
        match r {
            Ok(bins) => cells@.len() > 0 && threshold_bins_ok(cells@, gap as int, bins@),
            Err(e) => (e is EmptyInput && cells@.len() == 0) || (e is NumericOverflow
                && cells@.len() > i64::MAX),
        },
{
    let n = cells.len();
    if n == 0 {
        return Err(TransformError::EmptyInput);
    }
    let mut bins: Vec<Option<i64>> = Vec::new();
    let mut g: i64 = 0;
    let mut last: Option<i64> = None;
    for i in 0..n
        invariant
            n == cells@.len(),
            bins@.len() == i,
            g == threshold_counter(cells@, gap as int, i as int),
            0 <= g <= i,
            last == last_ts(cells@, i as int),
            gap <= i64::MAX,
            forall|j: int|
                0 <= j < i ==> match #[trigger] cells@[j] {
                    None => bins@[j] is None,
                    Some(_) => bins@[j] matches Some(b) && b == threshold_counter(
                        cells@,
                        gap as int,
                        j + 1,
                    ),
                },
    {
        match cells[i] {
            Some(t) => {
                if let Some(lastv) = last {
                    let diff: i128 = t as i128 - lastv as i128;
                    if diff > gap as i128 {
                        g = match g.checked_add(1) {
                            Some(v) => v,
                            None => {
                                return Err(TransformError::NumericOverflow);
                            },
                        };
                    }
                }
                bins.push(Some(g));
                last = Some(t);
            },
            None => {
                bins.push(None);
            },
        }
    }
    Ok(bins)
}

// ---------------------------------------------------------------------------
// Manual-interval binning
// ---------------------------------------------------------------------------
/// How many boundaries lie at or below the elapsed offset.
pub open spec fn count_le(bs: Seq<u64>, x: int) -> int
    decreases bs.len(),
{
    if bs.len() == 0 {
        0
    } else {
        count_le(bs.drop_last(), x) + if bs.last() <= x {
            1int
        } else {
            0int
        }
    }
}

/// The first non-null timestamp of the column: the reference the manual
/// strategy measures elapsed time from.
pub open spec fn first_some(cells: Seq<Option<i64>>) -> Option<i64>
    decreases cells.len(),
{
    if cells.len() == 0 {
        None
    } else {
        match cells[0] {
            Some(t) => Some(t),
            None => first_some(cells.skip(1)),
        }
    }
}

/// The bin column of the manual strategy: for each non-null cell, the
/// count of boundaries at or below its offset from the first non-null cell.
pub open spec fn manual_bins_ok(cells: Seq<Option<i64>>, bs: Seq<u64>, bins: Seq<
    Option<i64>,
>) -> bool {
    &&& bins.len() == cells.len()
    &&& forall|i: int|
        0 <= i < cells.len() ==> match #[trigger] cells[i] {
            None => bins[i] is None,
            Some(t) => bins[i] matches Some(b) && b == count_le(
                bs,
                t - first_some(cells)->Some_0,
            ),
        }
}

proof fn lemma_first_some_at(cells: Seq<Option<i64>>, i: int)
    requires
        0 <= i < cells.len(),
        cells[i] is Some,
        forall|j: int| 0 <= j < i ==> cells[j] is None,
    ensures
        first_some(cells) == cells[i],
    decreases i,
{
    if i > 0 {
        lemma_first_some_at(cells.skip(1), i - 1);
    }
}

/// Counts the boundaries at or below the offset.
fn count_le_exec(bs: &Vec<u64>, x: i128) -> (r: Result<i64, TransformError>)
    ensures
        match r {
            Ok(c) => c == count_le(bs@, x as int),
            Err(e) => e is NumericOverflow && bs@.len() > i64::MAX,
        },
{
    let n = bs.len();
    let mut c: i64 = 0;
    for i in 0..n
        invariant
            n == bs@.len(),
            c == count_le(bs@.subrange(0, i as int), x as int),
            0 <= c <= i,
    {
        proof {
            assert(bs@.subrange(0, i + 1).drop_last() =~= bs@.subrange(0, i as int));
            assert(bs@.subrange(0, i + 1).last() == bs@[i as int]);
        }
        if bs[i] as i128 <= x {
            c = match c.checked_add(1) {
                Some(v) => v,
                None => {
                    return Err(TransformError::NumericOverflow);
                },
            };
        }
    }
    proof {
        assert(bs@.subrange(0, n as int) =~= bs@);
    }
    Ok(c)
}

/// Assigns manual-interval bins: each non-null cell is labeled with the
/// number of boundaries at or below its offset from the first non-null
/// cell. Empty input is refused.
pub fn manual_bins(cells: &Vec<Option<i64>>, bs: &Vec<u64>) -> (r: Result<
    Vec<Option<i64>>,
    TransformError,
>)
    ensures
        match r {
            Ok(bins) => cells@.len() > 0 && manual_bins_ok(cells@, bs@, bins@),
            Err(e) => (e is EmptyInput && cells@.len() == 0) || (e
                is NumericOverflow && bs@.len() > i64::MAX),
        },
{
    let n = cells.len();
    if n == 0 {
        return Err(TransformError::EmptyInput);
    }
    // Locate the reference cell: the first non-null timestamp.
    let mut first: Option<i64> = None;
    let mut k: usize = 0;
    while k < n && first.is_none()
        invariant
            n == cells@.len(),
            k <= n,
            match first {
                Some(t) => k > 0 && cells@[k - 1] == Some(t) && (forall|j: int|
                    0 <= j < k - 1 ==> cells@[j] is None) && first_some(cells@) == Some(t),
                None => forall|j: int| 0 <= j < k ==> cells@[j] is None,
            },
        decreases n - k,
    {
        match cells[k] {
            Some(t) => {
                proof {
                    lemma_first_some_at(cells@, k as int);
                }
                first = Some(t);
            },
            None => {
            },
        }
        k = k + 1;
    }
    let mut bins: Vec<Option<i64>> = Vec::new();
    for i in 0..n
        invariant
            n == cells@.len(),
            bins@.len() == i,
            match first {
                Some(t) => first_some(cells@) == Some(t),
                None => forall|j: int| 0 <= j < n ==> cells@[j] is None,
            },
            forall|j: int|
                0 <= j < i ==> match #[trigger] cells@[j] {
                    None => bins@[j] is None,
                    Some(t) => bins@[j] matches Some(b) && b == count_le(
                        bs@,
                        t - first_some(cells@)->Some_0,
                    ),
                },
    {
        match cells[i] {
            Some(t) => {
                let f = match first {
                    Some(f) => f,
                    None => {
                        // Unreachable: a non-null cell means a first
                        // non-null cell exists.
                        proof {
                            assert(cells@[i as int] is Some);
                            assert(false);
                        }
                        0
                    },
                };
                let offset: i128 = t as i128 - f as i128;
                match count_le_exec(bs, offset) {
                    Ok(c) => {
                        bins.push(Some(c));
                    },
                    Err(e) => {
                        return Err(e);
                    },
                }
            },
            None => {
                bins.push(None);
            },
        }
    }
    Ok(bins)
}

// ---------------------------------------------------------------------------
// Law: fixed-interval bins over strictly increasing timestamps
// ---------------------------------------------------------------------------
/// Once a non-null cell has been seen, the scan keeps an anchor.
proof fn lemma_fixed_anchor_some(cells: Seq<Option<i64>>, gap: int, n: int)
    requires
        1 <= n <= cells.len(),
        cells[0] is Some,
    ensures
        fixed_scan(cells, gap, n).anchor is Some,
    decreases n,
{
    if n > 1 {
        lemma_fixed_anchor_some(cells, gap, n - 1);
    }
}

/// While no anchor exists, the counter is still zero.
proof fn lemma_fixed_none_zero(cells: Seq<Option<i64>>, gap: int, n: int)
    ensures
        fixed_scan(cells, gap, n).anchor is None ==> fixed_scan(cells, gap, n).counter == 0,
    decreases n,
{
    if n > 0 {
        lemma_fixed_none_zero(cells, gap, n - 1);
    }
}

proof fn lemma_fixed_counter_mono(cells: Seq<Option<i64>>, gap: int, i: int, j: int)
    requires
        i <= j,
    ensures
        fixed_scan(cells, gap, i).counter <= fixed_scan(cells, gap, j).counter,
    decreases j - i,
{
    if i < j {
        lemma_fixed_counter_mono(cells, gap, i, j - 1);
        lemma_fixed_none_zero(cells, gap, j - 1);
    }
}

/// Law: for a fully non-null, strictly increasing timestamp column under
/// the fixed-interval strategy, consecutive bins either repeat or step up
/// by exactly one, stepping exactly when the elapsed time since the row
/// where the bin last changed (the anchor) reaches the interval; hence the
/// bin sequence is non-decreasing.
pub proof fn lemma_fixed_interval_monotonic(cells: Seq<Option<i64>>, interval: int)
    requires
        forall|i: int| 0 <= i < cells.len() ==> (#[trigger] cells[i]) is Some,
        forall|i: int|
            1 <= i < cells.len() ==> (#[trigger] cells[i])->Some_0 > cells[i - 1]->Some_0,
    ensures
        forall|i: int|
            1 <= i <= cells.len() ==> (#[trigger] fixed_scan(cells, interval, i)).anchor is Some,
        forall|i: int|
            1 <= i < cells.len() ==> fixed_scan(cells, interval, i + 1).counter == fixed_scan(
                cells,
                interval,
                i,
            ).counter + if (#[trigger] cells[i])->Some_0 - fixed_scan(
                cells,
                interval,
                i,
            ).anchor->Some_0 >= interval {
                1int
            } else {
                0int
            },
        forall|i: int, j: int|
            0 <= i <= j <= cells.len() ==> fixed_scan(cells, interval, i).counter <= fixed_scan(
                cells,
                interval,
                j,
            ).counter,
{
    assert forall|i: int|
        1 <= i <= cells.len() implies (#[trigger] fixed_scan(cells, interval, i)).anchor
        is Some by {
        lemma_fixed_anchor_some(cells, interval, i);
    }
    assert forall|i: int| 1 <= i < cells.len() implies fixed_scan(cells, interval, i + 1).counter
        == fixed_scan(cells, interval, i).counter + if (#[trigger] cells[i])->Some_0 - fixed_scan(
        cells,
        interval,
        i,
    ).anchor->Some_0 >= interval {
        1int
    } else {
        0int
    } by {
        lemma_fixed_anchor_some(cells, interval, i);
    }
    assert forall|i: int, j: int|
        0 <= i <= j <= cells.len() implies fixed_scan(cells, interval, i).counter <= fixed_scan(
        cells,
        interval,
        j,
    ).counter by {
        lemma_fixed_counter_mono(cells, interval, i, j);
    }
}

} // verus!
