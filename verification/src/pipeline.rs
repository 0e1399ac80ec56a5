use vstd::prelude::*;
use vstd::string::StringExecFns;
use crate::column::{Batch, Column, ColumnData};
use crate::compute::{ComputationType, NullHandling};
use crate::error::TransformError;
use crate::grouping::{is_empty_ids, value_change_ids, value_equals_ids, render_column,
    rendered_spec, GroupingConfig, GroupingRule, change_id_at, eq_id_at, empty_id_at};
use crate::text::{dec_digits, ends_with_chars, join_chars, str_ends_with, str_strip_suffix_all,
    strip_suffix_all, join_strings};
use crate::timebin::{fixed_bins, fixed_bins_ok, manual_bins, manual_bins_ok, threshold_bins,
    threshold_bins_ok, TimeBinConfig, TimeBinStrategy};
use crate::timestamp::{duration_chars, parse_duration, parse_timestamp, ticks_to_seconds,
    ts_parse};

verus! {

// ---------------------------------------------------------------------------
// Extracting timestamp seconds from a column
// ---------------------------------------------------------------------------
/// The column types the time binner accepts: text (parsed cell by cell),
/// plain integers (epoch seconds), and native timestamps (normalized by
/// their unit's scale).
pub open spec fn sec_supported(data: ColumnData) -> bool {
    data is Utf8 || data is Int32 || data is Int64 || data is Timestamp
}

/// Whether cell `i` can be read as a timestamp: null cells pass through,
/// non-null text must parse.
pub open spec fn sec_cell_ok(data: ColumnData, i: int) -> bool {
    match data {
        ColumnData::Utf8(v) => match v@[i] {
            Some(s) => ts_parse(s@) is Some,
            None => true,
        },
        _ => true,
    }
}

/// The seconds value of cell `i`.
pub open spec fn sec_cell_val(data: ColumnData, i: int) -> Option<i64> {
    match data {
        ColumnData::Utf8(v) => match v@[i] {
            Some(s) => ts_parse(s@),
            None => None,
        },
        ColumnData::Int32(v) => match v@[i] {
            Some(x) => Some(x as i64),
            None => None,
        },
        ColumnData::Int64(v) => v@[i],
        ColumnData::Timestamp(u, v) => match v@[i] {
            Some(t) => Some(((t as int) / u.scale_spec()) as i64),
            None => None,
        },
        _ => None,
    }
}

/// Reads a column as timestamp seconds. Text columns must parse in every
/// non-null cell; any unparseable cell fails the whole column.
pub fn extract_seconds(data: &ColumnData) -> (r: Result<Vec<Option<i64>>, TransformError>)
    ensures
        match r {
            Ok(v) => {
                &&& sec_supported(*data)
                &&& forall|i: int| 0 <= i < data.len_spec() ==> sec_cell_ok(*data, i)
                &&& v@.len() == data.len_spec()
                &&& forall|i: int| 0 <= i < v@.len() ==> #[trigger] v@[i] == sec_cell_val(*data, i)
            },
            Err(e) => (e is UnsupportedType && !sec_supported(*data)) || (e
                is ParseFailure && sec_supported(*data) && !(forall|i: int|
                0 <= i < data.len_spec() ==> sec_cell_ok(*data, i))),
        },
{
    match data {
        ColumnData::Utf8(cells) => {
            let n = cells.len();
            let mut out: Vec<Option<i64>> = Vec::new();
            for i in 0..n
                invariant
                    *data == ColumnData::Utf8(*cells),
                    n == cells@.len(),
                    out@.len() == i,
                    forall|j: int| 0 <= j < i ==> sec_cell_ok(*data, j),
                    forall|j: int| 0 <= j < i ==> #[trigger] out@[j] == sec_cell_val(*data, j),
            {
                match &cells[i] {
                    Some(s) => {
                        match parse_timestamp(s.as_str()) {
                            Ok(t) => {
                                out.push(Some(t));
                            },
                            Err(e) => {
                                proof {
                                    assert(!sec_cell_ok(*data, i as int));
                                }
                                return Err(e);
                            },
                        }
                    },
                    None => {
                        out.push(None);
                    },
                }
            }
            Ok(out)
        },
        ColumnData::Int32(cells) => {
            let n = cells.len();
            let mut out: Vec<Option<i64>> = Vec::new();
            for i in 0..n
                invariant
                    *data == ColumnData::Int32(*cells),
                    n == cells@.len(),
                    out@.len() == i,
                    forall|j: int| 0 <= j < i ==> #[trigger] out@[j] == sec_cell_val(*data, j),
            {
                match cells[i] {
                    Some(x) => {
                        out.push(Some(x as i64));
                    },
                    None => {
                        out.push(None);
                    },
                }
            }
            Ok(out)
        },
        ColumnData::Int64(cells) => Ok(cells.clone()),
        ColumnData::Timestamp(u, cells) => {
            let n = cells.len();
            let mut out: Vec<Option<i64>> = Vec::new();
            for i in 0..n
                invariant
                    *data == ColumnData::Timestamp(*u, *cells),
                    n == cells@.len(),
                    out@.len() == i,
                    forall|j: int| 0 <= j < i ==> #[trigger] out@[j] == sec_cell_val(*data, j),
            {
                match cells[i] {
                    Some(t) => {
                        out.push(Some(ticks_to_seconds(t, *u)));
                    },
                    None => {
                        out.push(None);
                    },
                }
            }
            Ok(out)
        },
        _ => Err(TransformError::UnsupportedType),
    }
}

// ---------------------------------------------------------------------------
// The time grouping engine
// ---------------------------------------------------------------------------
/// The durations denoted by the boundary strings of a manual strategy.
pub open spec fn boundaries_spec(ss: Seq<String>) -> Seq<Option<u64>> {
    ss.map_values(|s: String| duration_chars(s@))
}

/// What the bin column must hold for each strategy, over the extracted
/// seconds.
pub open spec fn strategy_bins_ok(
    cells: Seq<Option<i64>>,
    strat: TimeBinStrategy,
    bins: Seq<Option<i64>>,
) -> bool {
    match strat {
        TimeBinStrategy::FixedInterval { interval_seconds, .. } => fixed_bins_ok(
            cells,
            interval_seconds as int,
            bins,
        ),
        TimeBinStrategy::ThresholdBased { threshold_seconds, .. } => threshold_bins_ok(
            cells,
            threshold_seconds as int,
            bins,
        ),
        TimeBinStrategy::ManualIntervals { intervals, .. } => {
            &&& forall|j: int| 0 <= j < intervals@.len() ==> boundaries_spec(intervals@)[j] is Some
            &&& manual_bins_ok(
                cells,
                boundaries_spec(intervals@).map_values(|b: Option<u64>| b->Some_0),
                bins,
            )
        },
    }
}

/// Assigns time bins by a sequential, order-preserving scan: rows are
/// binned in table order, never sorted by timestamp.
pub struct TimeGroupingEngine;

impl TimeGroupingEngine {
    /// Parses a textual cell as a timestamp (seconds since the epoch, or
    /// since midnight for time-of-day cells).
    pub fn parse_timestamp(time_str: &str) -> (r: Result<i64, TransformError>)
        ensures
            match r {
                Ok(v) => ts_parse(time_str@) == Some(v),
                Err(e) => e is ParseFailure && ts_parse(time_str@) is None,
            },
    {
        parse_timestamp(time_str)
    }

    /// Parses a duration string (`seconds`, `M:S` or `H:M:S`) as seconds.
    pub fn parse_time_format(time_str: &str) -> (r: Result<u64, TransformError>)
        ensures
            match r {
                Ok(v) => duration_chars(time_str@) == Some(v),
                Err(e) => e is ParseFailure && duration_chars(time_str@) is None,
            },
    {
        match parse_duration(time_str) {
            Some(v) => Ok(v),
            None => Err(TransformError::ParseFailure {
                value: time_str.to_owned(),
                formats: crate::timestamp::duration_formats(),
            }),
        }
    }

    /// Fixed-interval bins over extracted seconds: a new bin opens when
    /// the gap since the previous row reaches the interval.
    pub fn create_fixed_interval_groups(cells: &Vec<Option<i64>>, interval_seconds: u64) -> (r:
        Result<Vec<Option<i64>>, TransformError>)
        requires
            interval_seconds <= i64::MAX,
        ensures
            match r {
                Ok(bins) => cells@.len() > 0 && fixed_bins_ok(
                    cells@,
                    interval_seconds as int,
                    bins@,
                ),
                Err(e) => (e is EmptyInput && cells@.len() == 0) || (e
                    is NumericOverflow && cells@.len() > i64::MAX),
            },
    {
        fixed_bins(cells, interval_seconds)
    }

    /// Threshold bins over extracted seconds: a new bin opens when the gap
    /// since the previous row strictly exceeds the threshold.
    pub fn create_threshold_based_groups(cells: &Vec<Option<i64>>, threshold_seconds: u64) -> (r:
        Result<Vec<Option<i64>>, TransformError>)
        requires
            threshold_seconds <= i64::MAX,
        ensures
            match r {
                Ok(bins) => cells@.len() > 0 && threshold_bins_ok(
                    cells@,
                    threshold_seconds as int,
                    bins@,
                ),
                Err(e) => (e is EmptyInput && cells@.len() == 0) || (e
                    is NumericOverflow && cells@.len() > i64::MAX),
            },
    {
        threshold_bins(cells, threshold_seconds)
    }

    /// Manual-interval bins over extracted seconds: each row is labeled
    /// with the count of boundaries at or below its offset from the first
    /// row.
    pub fn create_manual_interval_groups(cells: &Vec<Option<i64>>, intervals: &Vec<String>) -> (r:
        Result<Vec<Option<i64>>, TransformError>)
        ensures
            match r {
                Ok(bins) => {
                    &&& cells@.len() > 0
                    &&& forall|j: int|
                        0 <= j < intervals@.len() ==> boundaries_spec(intervals@)[j] is Some
                    &&& manual_bins_ok(
                        cells@,
                        boundaries_spec(intervals@).map_values(|b: Option<u64>| b->Some_0),
                        bins@,
                    )
                },
                Err(e) => (e is EmptyInput && cells@.len() == 0) || (e
                    is ParseFailure && !(forall|j: int|
                    0 <= j < intervals@.len() ==> boundaries_spec(intervals@)[j] is Some)) || (e
                    is NumericOverflow && intervals@.len() > i64::MAX),
            },
    {
        let ghost bsv = boundaries_spec(intervals@);
        let m = intervals.len();
        let mut bs: Vec<u64> = Vec::new();
        for j in 0..m
            invariant
                m == intervals@.len(),
                bsv == boundaries_spec(intervals@),
                bs@.len() == j,
                forall|q: int| 0 <= q < j ==> bsv[q] is Some,
                forall|q: int| 0 <= q < j ==> #[trigger] bs@[q] == bsv[q]->Some_0,
        {
            proof {
                assert(bsv[j as int] == duration_chars(intervals@[j as int]@));
            }
            match parse_duration(intervals[j].as_str()) {
                Some(b) => {
                    bs.push(b);
                },
                None => {
                    proof {
                        assert(bsv[j as int] is None);
                    }
                    return Err(TransformError::ParseFailure {
                        value: intervals[j].clone(),
                        formats: crate::timestamp::duration_formats(),
                    });
                },
            }
        }
        proof {
            assert(bs@ =~= bsv.map_values(|b: Option<u64>| b->Some_0));
        }
        manual_bins(cells, &bs)
    }

    /// Bins over extracted seconds under the configured strategy.
    pub fn create_groups(cells: &Vec<Option<i64>>, strategy: &TimeBinStrategy) -> (r: Result<
        Vec<Option<i64>>,
        TransformError,
    >)
        requires
            strategy matches TimeBinStrategy::FixedInterval { interval_seconds, .. }
                ==> interval_seconds <= i64::MAX,
            strategy matches TimeBinStrategy::ThresholdBased { threshold_seconds, .. }
                ==> threshold_seconds <= i64::MAX,
        ensures
            match r {
                Ok(bins) => cells@.len() > 0 && strategy_bins_ok(cells@, *strategy, bins@),
                Err(e) => (e is EmptyInput && cells@.len() == 0) || e
                    is ParseFailure || e is NumericOverflow,
            },
    {
        match strategy {
            TimeBinStrategy::FixedInterval { interval_seconds, .. } => {
                Self::create_fixed_interval_groups(cells, *interval_seconds)
            },
            TimeBinStrategy::ManualIntervals { intervals, .. } => {
                let r = Self::create_manual_interval_groups(cells, intervals);
                proof {
                    if r is Ok {
                        let bs = boundaries_spec(intervals@).map_values(
                            |b: Option<u64>| b->Some_0,
                        );
                        assert(manual_bins_ok(cells@, bs, r->Ok_0@));
                    }
                }
                r
            },
            TimeBinStrategy::ThresholdBased { threshold_seconds, .. } => {
                Self::create_threshold_based_groups(cells, *threshold_seconds)
            },
        }
    }

    /// Applies time-based grouping to a batch: reads the configured time
    /// column, bins every row under the strategy, and returns the batch
    /// with the bin column appended together with the output table name
    /// (the source table name with a `_grouped` suffix).
    pub fn apply_grouping(batch: Batch, config: &TimeBinConfig) -> (r: Result<
        (Batch, String),
        TransformError,
    >)
        requires
            batch.wf(),
            config.strategy matches TimeBinStrategy::FixedInterval { interval_seconds, .. }
                ==> interval_seconds <= i64::MAX,
            config.strategy matches TimeBinStrategy::ThresholdBased { threshold_seconds, .. }
                ==> threshold_seconds <= i64::MAX,
        ensures
            match r {
                Ok((b, name)) => {
                    &&& batch.has_column(config.selected_column@)
                    &&& batch.num_rows_spec() > 0
                    &&& !batch.has_column(config.output_column_name@)
                    &&& b.wf()
                    &&& b.columns@.len() == batch.columns@.len() + 1
                    &&& forall|j: int|
                        0 <= j < batch.columns@.len() ==> #[trigger] b.columns@[j]
                            == batch.columns@[j]
                    &&& b.columns@.last().name@ == config.output_column_name@
                    &&& (exists|i: int|
                        0 <= i < batch.columns@.len() && (#[trigger] batch.columns@[i].name@)
                            == config.selected_column@ && (b.columns@.last().data matches
                        ColumnData::Int64(bins) && strategy_bins_ok(
                            Seq::new(
                                batch.columns@[i].len_spec(),
                                |q: int| sec_cell_val(batch.columns@[i].data, q),
                            ),
                            config.strategy,
                            bins@,
                        )))
                    &&& name@ == config.selected_table@ + "_grouped"@
                },
                Err(e) => {
                    ||| (e is ColumnNotFound && !batch.has_column(
                        config.selected_column@,
                    ))
                    ||| (e is DuplicateOutputName && batch.has_column(
                        config.output_column_name@,
                    ))
                    ||| (e is EmptyInput && batch.num_rows_spec() == 0)
                    ||| e is UnsupportedType
                    ||| e is ParseFailure
                    ||| e is NumericOverflow
                },
            },
    {
        let idx = match batch.column_index(config.selected_column.as_str()) {
            Some(i) => i,
            None => {
                return Err(TransformError::ColumnNotFound(config.selected_column.clone()));
            },
        };
        if batch.num_rows() == 0 {
            return Err(TransformError::EmptyInput);
        }
        let cells = match extract_seconds(&batch.columns[idx].data) {
            Ok(c) => c,
            Err(e) => {
                return Err(e);
            },
        };
        let bins = match Self::create_groups(&cells, &config.strategy) {
            Ok(b) => b,
            Err(e) => {
                return Err(e);
            },
        };
        proof {
            assert(cells@ =~= Seq::new(
                batch.columns@[idx as int].len_spec(),
                |q: int| sec_cell_val(batch.columns@[idx as int].data, q),
            ));
        }
        let col = Column {
            name: config.output_column_name.clone(),
            data: ColumnData::Int64(bins),
        };
        let b = match batch.with_column(col) {
            Ok(b) => b,
            Err(e) => {
                return Err(e);
            },
        };
        let mut name = config.selected_table.clone();
        name.append("_grouped");
        Ok((b, name))
    }
}

// ---------------------------------------------------------------------------
// Output filenames
// ---------------------------------------------------------------------------
/// The table name with any trailing `.arrow`, `.csv` and `.parquet`
/// extensions stripped, in that order.
pub open spec fn base_name_chars(table: Seq<char>) -> Seq<char> {
    strip_suffix_all(strip_suffix_all(strip_suffix_all(table, ".arrow"@), ".csv"@), ".parquet"@)
}

/// The suffix summarizing the configured steps: their tokens joined by
/// underscores, summarized past the third to keep names bounded.
pub open spec fn suffix_join_chars(names: Seq<Seq<char>>) -> Seq<char> {
    if names.len() > 3 {
        join_chars(names.take(3), "_"@) + "_and_"@ + dec_digits((names.len() - 3) as nat)
            + "_more"@
    } else {
        join_chars(names, "_"@)
    }
}

/// A user-supplied output filename with the artifact extension enforced;
/// absent that, the generated name.
pub open spec fn output_filename_chars(custom: Option<String>, generated: Seq<char>) -> Seq<
    char,
> {
    match custom {
        Some(c) => if ends_with_chars(c@, ".arrow"@) {
            c@
        } else {
            c@ + ".arrow"@
        },
        None => generated,
    }
}

/// Strips the known table-file extensions from a table name.
fn base_name(table: &str) -> (r: String)
    ensures
        r@ == base_name_chars(table@),
{
    proof {
        reveal_strlit(".arrow");
        reveal_strlit(".csv");
        reveal_strlit(".parquet");
    }
    let a = str_strip_suffix_all(table, ".arrow");
    let b = str_strip_suffix_all(a.as_str(), ".csv");
    str_strip_suffix_all(b.as_str(), ".parquet")
}

/// Joins step tokens, summarizing past the third.
fn suffix_join(names: &Vec<String>) -> (r: String)
    ensures
        r@ == suffix_join_chars(names@.map_values(|s: String| s@)),
{
    let ghost views = names@.map_values(|s: String| s@);
    if names.len() > 3 {
        let mut head: Vec<String> = Vec::new();
        head.push(names[0].clone());
        head.push(names[1].clone());
        head.push(names[2].clone());
        proof {
            assert(head@.map_values(|s: String| s@) =~= views.take(3));
        }
        let mut s = join_strings(&head, "_");
        s.append("_and_");
        let more = crate::text::dec_u128((names.len() - 3) as u128);
        s.append(more.as_str());
        s.append("_more");
        s
    } else {
        join_strings(names, "_")
    }
}

/// Applies the custom-name rule: enforce the artifact extension, or fall
/// back to the generated name.
fn resolve_output_filename(custom: &Option<String>, generated: String) -> (r: String)
    ensures
        r@ == output_filename_chars(*custom, generated@),
{
    match custom {
        Some(c) => {
            if str_ends_with(c.as_str(), ".arrow") {
                c.clone()
            } else {
                let mut s = c.clone();
                s.append(".arrow");
                s
            }
        },
        None => generated,
    }
}

// ---------------------------------------------------------------------------
// The enhanced grouping processor
// ---------------------------------------------------------------------------
/// One grouping request: the source table, the rules to apply in order,
/// and an optional output filename.
#[derive(Debug, Clone)]
pub struct EnhancedGroupingRequest {
    pub table_name: String,
    pub configurations: Vec<GroupingConfig>,
    pub output_filename: Option<String>,
}

/// The generated output filename of a grouping request: the base table
/// name, `_with_`, the output-column tokens, and the artifact extension.
pub open spec fn grouping_filename_chars(table: Seq<char>, names: Seq<Seq<char>>) -> Seq<char> {
    base_name_chars(table) + "_with_"@ + suffix_join_chars(names) + ".arrow"@
}

/// The column a grouping rule reads.
pub open spec fn rule_column_chars(rule: GroupingRule) -> Seq<char> {
    match rule {
        GroupingRule::ValueChange { column } => column@,
        GroupingRule::ValueEquals { column, .. } => column@,
        GroupingRule::IsEmpty { column } => column@,
    }
}

/// The group ids a rule assigns over the stringified cells of its column.
pub open spec fn rule_ids_ok(
    data: ColumnData,
    rule: GroupingRule,
    reset: bool,
    ids: Seq<Option<i64>>,
) -> bool {
    let vals = rendered_spec(data);
    &&& ids.len() == data.len_spec()
    &&& match rule {
        GroupingRule::ValueChange { .. } => forall|q: int|
            0 <= q < ids.len() ==> ((#[trigger] ids[q]) matches Some(g) && g == change_id_at(
                vals,
                reset,
                q,
            )),
        GroupingRule::ValueEquals { value, .. } => forall|q: int|
            0 <= q < ids.len() ==> ((#[trigger] ids[q]) matches Some(g) && g == eq_id_at(
                vals,
                value@,
                reset,
                q,
            )),
        GroupingRule::IsEmpty { .. } => forall|q: int|
            0 <= q < ids.len() ==> ((#[trigger] ids[q]) matches Some(g) && g == empty_id_at(
                vals,
                reset,
                q,
            )),
    }
}

/// Assigns sequential group-id columns by value patterns: value changes,
/// runs equal to a target, and runs of empty cells.
pub struct EnhancedGroupingProcessor;

impl EnhancedGroupingProcessor {
    pub fn new() -> (r: EnhancedGroupingProcessor) {
        EnhancedGroupingProcessor
    }

    /// Appends the group-id column of one rule: ids assigned by the
    /// sequential scan of the stringified source column, never null.
    pub fn apply_grouping(&self, batch: Batch, config: &GroupingConfig) -> (r: Result<
        Batch,
        TransformError,
    >)
        requires
            batch.wf(),
        ensures
            match r {
                Ok(out) => {
                    &&& out.wf()
                    &&& out.columns@.len() == batch.columns@.len() + 1
                    &&& forall|j: int|
                        0 <= j < batch.columns@.len() ==> #[trigger] out.columns@[j]
                            == batch.columns@[j]
                    &&& out.columns@.last().name@ == config.output_column@
                    &&& !batch.has_column(config.output_column@)
                    &&& exists|i: int|
                        0 <= i < batch.columns@.len() && (#[trigger] batch.columns@[i].name@)
                            == rule_column_chars(config.rule) && (
                        out.columns@.last().data matches ColumnData::Int64(cells) && rule_ids_ok(
                            batch.columns@[i].data,
                            config.rule,
                            config.reset_on_change,
                            cells@,
                        ))
                },
                Err(e) => {
                    ||| (e is ColumnNotFound && !batch.has_column(
                        rule_column_chars(config.rule),
                    ))
                    ||| (e is EmptyInput && batch.num_rows_spec() == 0)
                    ||| (e is DuplicateOutputName && batch.has_column(
                        config.output_column@,
                    ))
                    ||| (e is NumericOverflow && batch.num_rows_spec() > i64::MAX)
                },
            },
    {
        let column = match &config.rule {
            GroupingRule::ValueChange { column } => column,
            GroupingRule::ValueEquals { column, .. } => column,
            GroupingRule::IsEmpty { column } => column,
        };
        let idx = match batch.column_index(column.as_str()) {
            Some(i) => i,
            None => {
                return Err(TransformError::ColumnNotFound(column.clone()));
            },
        };
        proof {
            assert(batch.columns@[idx as int].wf());
            assert(batch.columns@[idx as int].len_spec() == batch.num_rows_spec());
        }
        let vals = render_column(&batch.columns[idx].data);
        let raw_ids = match &config.rule {
            GroupingRule::ValueChange { .. } => {
                crate::grouping::value_change_ids(&vals, config.reset_on_change)
            },
            GroupingRule::ValueEquals { value, .. } => {
                crate::grouping::value_equals_ids(&vals, value.as_str(), config.reset_on_change)
            },
            GroupingRule::IsEmpty { .. } => {
                crate::grouping::is_empty_ids(&vals, config.reset_on_change)
            },
        };
        let raw = match raw_ids {
            Ok(ids) => ids,
            Err(e) => {
                return Err(e);
            },
        };
        let n = raw.len();
        let mut cells: Vec<Option<i64>> = Vec::new();
        for q in 0..n
            invariant
                n == raw@.len(),
                cells@.len() == q,
                forall|j: int| 0 <= j < q ==> #[trigger] cells@[j] == Some(raw@[j]),
        {
            cells.push(Some(raw[q]));
        }
        let col = Column {
            name: config.output_column.clone(),
            data: ColumnData::Int64(cells),
        };
        batch.with_column(col)
    }

    /// The generated output filename of a grouping request.
    pub fn generate_output_filename(&self, table_name: &str, configurations: &Vec<
        GroupingConfig,
    >) -> (r: String)
        ensures
            r@ == grouping_filename_chars(
                table_name@,
                configurations@.map_values(|c: GroupingConfig| c.output_column@),
            ),
    {
        let m = configurations.len();
        let mut names: Vec<String> = Vec::new();
        for k in 0..m
            invariant
                m == configurations@.len(),
                names@.len() == k,
                forall|j: int|
                    0 <= j < k ==> (#[trigger] names@[j])@ == configurations@[j].output_column@,
        {
            names.push(configurations[k].output_column.clone());
        }
        proof {
            assert(names@.map_values(|s: String| s@) =~= configurations@.map_values(
                |c: GroupingConfig| c.output_column@,
            ));
        }
        let mut s = base_name(table_name);
        s.append("_with_");
        let suffix = suffix_join(&names);
        s.append(suffix.as_str());
        s.append(".arrow");
        s
    }

    /// Applies every configured rule in order, each appending one column,
    /// and resolves the output filename: the custom name with the artifact
    /// extension enforced, or the generated one.
    pub fn process_request(&self, request: &EnhancedGroupingRequest, batch: Batch) -> (r: Result<
        (Batch, String),
        TransformError,
    >)
        requires
            batch.wf(),
        ensures
            match r {
                Ok((b, name)) => {
                    &&& b.wf()
                    &&& b.columns@.len() == batch.columns@.len()
                        + request.configurations@.len()
                    &&& forall|j: int|
                        0 <= j < batch.columns@.len() ==> #[trigger] b.columns@[j]
                            == batch.columns@[j]
                    &&& forall|k: int|
                        0 <= k < request.configurations@.len() ==> (
                        #[trigger] b.columns@[batch.columns@.len() + k].name@)
                            == request.configurations@[k].output_column@
                    &&& name@ == output_filename_chars(
                        request.output_filename,
                        grouping_filename_chars(
                            request.table_name@,
                            request.configurations@.map_values(
                                |c: GroupingConfig| c.output_column@,
                            ),
                        ),
                    )
                },
                Err(e) => {
                    ||| e is ColumnNotFound
                    ||| e is EmptyInput
                    ||| e is DuplicateOutputName
                    ||| e is NumericOverflow
                },
            },
    {
        let mut current = batch;
        let ghost orig = current;
        let m = request.configurations.len();
        for k in 0..m
            invariant
                m == request.configurations@.len(),
                current.wf(),
                current.columns@.len() == orig.columns@.len() + k,
                forall|j: int|
                    0 <= j < orig.columns@.len() ==> #[trigger] current.columns@[j]
                        == orig.columns@[j],
                forall|q: int|
                    0 <= q < k ==> (#[trigger] current.columns@[orig.columns@.len() + q].name@)
                        == request.configurations@[q].output_column@,
        {
            current = match self.apply_grouping(current, &request.configurations[k]) {
                Ok(b) => b,
                Err(e) => {
                    return Err(e);
                },
            };
        }
        let generated = self.generate_output_filename(
            request.table_name.as_str(),
            &request.configurations,
        );
        let name = resolve_output_filename(&request.output_filename, generated);
        Ok((current, name))
    }
}

// ---------------------------------------------------------------------------
// The computed columns processor
// ---------------------------------------------------------------------------
/// One configured numeric derivation: the computation, its source column
/// (and second column for ratios), the output column name, the window for
/// moving averages, and the null handling.
#[derive(Debug, Clone)]
pub struct ComputedColumnConfig {
    pub computation_type: ComputationType,
    pub source_column: String,
    pub second_column: Option<String>,
    pub output_name: String,
    pub window_size: usize,
    pub null_handling: NullHandling,
}

/// One computed-columns request: the source table, the derivations to
/// apply in order, and an optional output filename.
#[derive(Debug, Clone)]
pub struct ComputedColumnsRequest {
    pub table_name: String,
    pub configurations: Vec<ComputedColumnConfig>,
    pub output_filename: Option<String>,
}

/// The filename token of one configured derivation.
pub open spec fn comp_suffix_chars(c: ComputedColumnConfig) -> Seq<char> {
    match c.computation_type {
        ComputationType::Delta => "delta_"@ + c.source_column@,
        ComputationType::CumulativeSum => "cumsum_"@ + c.source_column@,
        ComputationType::Percentage => "pct_"@ + c.source_column@,
        ComputationType::Ratio => "ratio_"@ + c.source_column@ + "_"@ + (match c.second_column {
            Some(s) => s@,
            None => "unknown"@,
        }),
        ComputationType::MovingAverage => "ma"@ + dec_digits(c.window_size as nat) + "_"@
            + c.source_column@,
        ComputationType::ZScore => "zscore_"@ + c.source_column@,
    }
}

/// The generated output filename of a computed-columns request.
pub open spec fn computed_filename_chars(table: Seq<char>, tokens: Seq<Seq<char>>) -> Seq<char> {
    base_name_chars(table) + "_"@ + suffix_join_chars(tokens) + ".arrow"@
}

/// The filename token of one configured derivation.
fn comp_suffix(c: &ComputedColumnConfig) -> (r: String)
    ensures
        r@ == comp_suffix_chars(*c),
{
    match c.computation_type {
        ComputationType::Delta => {
            let mut s = String::from_str("delta_");
            s.append(c.source_column.as_str());
            s
        },
        ComputationType::CumulativeSum => {
            let mut s = String::from_str("cumsum_");
            s.append(c.source_column.as_str());
            s
        },
        ComputationType::Percentage => {
            let mut s = String::from_str("pct_");
            s.append(c.source_column.as_str());
            s
        },
        ComputationType::Ratio => {
            let mut s = String::from_str("ratio_");
            s.append(c.source_column.as_str());
            s.append("_");
            match &c.second_column {
                Some(sec) => {
                    s.append(sec.as_str());
                },
                None => {
                    s.append("unknown");
                },
            }
            s
        },
        ComputationType::MovingAverage => {
            let mut s = String::from_str("ma");
            let w = crate::text::dec_u128(c.window_size as u128);
            s.append(w.as_str());
            s.append("_");
            s.append(c.source_column.as_str());
            s
        },
        ComputationType::ZScore => {
            let mut s = String::from_str("zscore_");
            s.append(c.source_column.as_str());
            s
        },
    }
}

/// What one configured derivation owes: the matching transformer result
/// on the configured columns under the configured name.
pub open spec fn computed_step_ok(pre: Batch, post: Batch, c: ComputedColumnConfig) -> bool {
    match c.computation_type {
        ComputationType::Delta => crate::transformer::delta_applied(
            pre,
            post,
            c.source_column@,
            c.output_name@,
        ),
        ComputationType::CumulativeSum => crate::transformer::cumsum_applied(
            pre,
            post,
            c.source_column@,
            c.output_name@,
            c.null_handling,
        ),
        ComputationType::Percentage => crate::transformer::percentage_applied(
            pre,
            post,
            c.source_column@,
            c.output_name@,
        ),
        ComputationType::Ratio => c.second_column matches Some(sec)
            && crate::transformer::ratio_applied(pre, post, c.source_column@, sec@, c.output_name@),
        ComputationType::MovingAverage => crate::transformer::moving_average_applied(
            pre,
            post,
            c.source_column@,
            c.output_name@,
            c.window_size as int,
            c.null_handling,
        ),
        ComputationType::ZScore => crate::transformer::zscore_applied(
            pre,
            post,
            c.source_column@,
            c.output_name@,
        ),
    }
}

/// The conditioned causes one configured derivation may fail with.
pub open spec fn computed_step_err(pre: Batch, c: ComputedColumnConfig, e: TransformError) -> bool {
    match c.computation_type {
        ComputationType::Delta => crate::transformer::unary_apply_err(
            pre,
            c.source_column@,
            c.output_name@,
            e,
            crate::transformer::delta_overflow(pre, c.source_column@),
        ),
        ComputationType::CumulativeSum => crate::transformer::unary_apply_err(
            pre,
            c.source_column@,
            c.output_name@,
            e,
            crate::transformer::cumsum_overflow(pre, c.source_column@),
        ),
        ComputationType::Percentage => crate::transformer::unary_apply_err(
            pre,
            c.source_column@,
            c.output_name@,
            e,
            crate::transformer::percentage_overflow(pre, c.source_column@),
        ),
        ComputationType::Ratio => match c.second_column {
            None => e matches TransformError::ColumnNotFound(n) && n@.len() == 0,
            Some(sec) => {
                ||| (e matches TransformError::ColumnNotFound(n) && ((n@ == c.source_column@
                    && !pre.has_column(c.source_column@)) || (n@ == sec@ && !pre.has_column(
                    sec@,
                ))))
                ||| (e is EmptyInput && pre.num_rows_spec() == 0)
                ||| (e is UnsupportedType && (crate::transformer::column_not_numeric(
                    pre,
                    c.source_column@,
                ) || crate::transformer::column_not_numeric(pre, sec@)))
                ||| (e matches TransformError::DuplicateOutputName(n) && n@ == c.output_name@
                    && pre.has_column(c.output_name@))
                ||| (e is NumericOverflow && crate::transformer::ratio_overflow(
                    pre,
                    c.source_column@,
                    sec@,
                ))
            },
        },
        ComputationType::MovingAverage => {
            ||| (e is UnsupportedType && c.window_size == 0)
            ||| (e is NumericOverflow && c.window_size > i64::MAX)
            ||| crate::transformer::unary_apply_err(
                pre,
                c.source_column@,
                c.output_name@,
                e,
                crate::transformer::ma_overflow(
                    pre,
                    c.source_column@,
                    c.window_size as int,
                    c.null_handling,
                ),
            )
        },
        ComputationType::ZScore => crate::transformer::unary_apply_err(
            pre,
            c.source_column@,
            c.output_name@,
            e,
            crate::transformer::zscore_overflow(pre, c.source_column@),
        ),
    }
}

/// A chain of configured derivations from `first` to `last`.
pub open spec fn computed_fold_ok(
    first: Batch,
    last: Batch,
    configs: Seq<ComputedColumnConfig>,
    chain: Seq<Batch>,
) -> bool {
    &&& chain.len() == configs.len() + 1
    &&& chain[0] == first
    &&& chain[chain.len() - 1] == last
    &&& forall|k: int|
        0 <= k < configs.len() ==> computed_step_ok(#[trigger] chain[k], chain[k + 1], configs[k])
}

/// Some chain of configured derivations took `first` to `last`.
pub open spec fn computed_result_ok(
    first: Batch,
    last: Batch,
    configs: Seq<ComputedColumnConfig>,
) -> bool {
    exists|chain: Seq<Batch>| #[trigger] computed_fold_ok(first, last, configs, chain)
}

/// A prefix of derivations succeeded and step `k` failed with `e`'s cause.
pub open spec fn computed_partial(
    first: Batch,
    configs: Seq<ComputedColumnConfig>,
    e: TransformError,
    chain: Seq<Batch>,
    k: int,
) -> bool {
    &&& 0 <= k < configs.len()
    &&& chain.len() == k + 1
    &&& chain[0] == first
    &&& forall|j: int|
        0 <= j < k ==> computed_step_ok(#[trigger] chain[j], chain[j + 1], configs[j])
    &&& computed_step_err(chain[k], configs[k], e)
}

/// Some prefix of derivations succeeded and the next failed with `e`'s
/// cause.
pub open spec fn computed_result_err(
    first: Batch,
    configs: Seq<ComputedColumnConfig>,
    e: TransformError,
) -> bool {
    exists|chain: Seq<Batch>, k: int| #[trigger] computed_partial(first, configs, e, chain, k)
}

/// Applies configured numeric derivations to batches, one appended column
/// per configuration.
pub struct ComputedColumnsProcessor {
    pub transformer: crate::transformer::DataTransformer,
}

impl ComputedColumnsProcessor {
    pub fn new() -> (r: ComputedColumnsProcessor) {
        ComputedColumnsProcessor { transformer: crate::transformer::DataTransformer::new() }
    }

    /// Dispatches one configured derivation to the transformer; the exact
    /// cell-level contracts live on the transformer's methods.
    pub fn apply_single_transformation(&self, batch: Batch, config: &ComputedColumnConfig) -> (r:
        Result<Batch, TransformError>)
        requires
            batch.wf(),
        ensures
            match r {
                Ok(out) => out.wf() && computed_step_ok(batch, out, *config),
                Err(e) => computed_step_err(batch, *config, e),
            },
    {
        match config.computation_type {
            ComputationType::Delta => self.transformer.apply_delta(
                batch,
                config.source_column.as_str(),
                config.output_name.as_str(),
            ),
            ComputationType::CumulativeSum => self.transformer.apply_cumulative_sum(
                batch,
                config.source_column.as_str(),
                config.output_name.as_str(),
                &config.null_handling,
            ),
            ComputationType::Percentage => self.transformer.apply_percentage(
                batch,
                config.source_column.as_str(),
                config.output_name.as_str(),
            ),
            ComputationType::Ratio => {
                match &config.second_column {
                    Some(second) => self.transformer.apply_ratio(
                        batch,
                        config.source_column.as_str(),
                        second.as_str(),
                        config.output_name.as_str(),
                    ),
                    None => Err(TransformError::ColumnNotFound(String::new())),
                }
            },
            ComputationType::MovingAverage => self.transformer.apply_moving_average(
                batch,
                config.source_column.as_str(),
                config.output_name.as_str(),
                config.window_size,
                &config.null_handling,
            ),
            ComputationType::ZScore => self.transformer.apply_zscore(
                batch,
                config.source_column.as_str(),
                config.output_name.as_str(),
            ),
        }
    }

    /// The generated output filename of a computed-columns request.
    pub fn generate_output_filename(&self, table_name: &str, configurations: &Vec<
        ComputedColumnConfig,
    >) -> (r: String)
        ensures
            r@ == computed_filename_chars(
                table_name@,
                configurations@.map_values(|c: ComputedColumnConfig| comp_suffix_chars(c)),
            ),
    {
        proof {
            reveal_strlit("_");
        }
        let m = configurations.len();
        let mut tokens: Vec<String> = Vec::new();
        for k in 0..m
            invariant
                m == configurations@.len(),
                tokens@.len() == k,
                forall|j: int|
                    0 <= j < k ==> (#[trigger] tokens@[j])@ == comp_suffix_chars(
                        configurations@[j],
                    ),
        {
            tokens.push(comp_suffix(&configurations[k]));
        }
        proof {
            assert(tokens@.map_values(|s: String| s@) =~= configurations@.map_values(
                |c: ComputedColumnConfig| comp_suffix_chars(c),
            ));
        }
        let mut s = base_name(table_name);
        s.append("_");
        let suffix = suffix_join(&tokens);
        s.append(suffix.as_str());
        s.append(".arrow");
        s
    }

    /// Applies every configured derivation in order, each appending one
    /// column, and resolves the output filename.
    pub fn process_request(&self, request: &ComputedColumnsRequest, batch: Batch) -> (r: Result<
        (Batch, String),
        TransformError,
    >)
        requires
            batch.wf(),
        ensures
            match r {
                Ok((b, name)) => {
                    &&& b.wf()
                    &&& computed_result_ok(batch, b, request.configurations@)
                    &&& name@ == output_filename_chars(
                        request.output_filename,
                        computed_filename_chars(
                            request.table_name@,
                            request.configurations@.map_values(
                                |c: ComputedColumnConfig| comp_suffix_chars(c),
                            ),
                        ),
                    )
                },
                Err(e) => computed_result_err(batch, request.configurations@, e),
            },
    {
        let mut current = batch;
        let ghost mut chain: Seq<Batch> = seq![batch];
        let m = request.configurations.len();
        for k in 0..m
            invariant
                m == request.configurations@.len(),
                current.wf(),
                chain.len() == k + 1,
                chain[0] == batch,
                chain[k as int] == current,
                forall|j: int|
                    0 <= j < k ==> computed_step_ok(
                        #[trigger] chain[j],
                        chain[j + 1],
                        request.configurations@[j],
                    ),
        {
            current = match self.apply_single_transformation(current, &request.configurations[k]) {
                Ok(b) => b,
                Err(e) => {
                    proof {
                        assert(computed_partial(
                            batch,
                            request.configurations@,
                            e,
                            chain,
                            k as int,
                        ));
                    }
                    return Err(e);
                },
            };
            proof {
                chain = chain.push(current);
            }
        }
        proof {
            assert(computed_fold_ok(batch, current, request.configurations@, chain));
        }
        let generated = self.generate_output_filename(
            request.table_name.as_str(),
            &request.configurations,
        );
        let name = resolve_output_filename(&request.output_filename, generated);
        Ok((current, name))
    }

    /// A fixed illustrative preview of a derivation, as the dialog shows
    /// before anything is applied.
    pub fn generate_preview(&self) -> (r: Vec<(usize, String, Option<String>, String)>)
        ensures
            r@.len() == 3,
            r@[0].0 == 1 && r@[0].1@ == "63.78"@ && r@[0].2 is None && r@[0].3@ == "NULL"@,
            r@[1].0 == 2 && r@[1].1@ == "116.97"@ && r@[1].2 is None && r@[1].3@ == "53.19"@,
            r@[2].0 == 3 && r@[2].1@ == "194.03"@ && r@[2].2 is None && r@[2].3@ == "77.06"@,
    {
        let mut rows: Vec<(usize, String, Option<String>, String)> = Vec::new();
        rows.push((1, String::from_str("63.78"), None, String::from_str("NULL")));
        rows.push((2, String::from_str("116.97"), None, String::from_str("53.19")));
        rows.push((3, String::from_str("194.03"), None, String::from_str("77.06")));
        rows
    }
}

} // verus!
