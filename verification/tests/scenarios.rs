use leaf::column::{Batch, Column, ColumnData};
use leaf::compute::NullHandling;
use leaf::error::TransformError;
use leaf::frac::Frac;
use leaf::grouping::{GroupingConfig, GroupingRule};
use leaf::pipeline::{EnhancedGroupingProcessor, TimeGroupingEngine};
use leaf::timebin::{TimeBinConfig, TimeBinStrategy};
use leaf::transformer::DataTransformer;

fn utf8_col(name: &str, cells: Vec<Option<&str>>) -> Column {
    Column {
        name: name.to_string(),
        data: ColumnData::Utf8(cells.into_iter().map(|c| c.map(|s| s.to_string())).collect()),
    }
}

fn int_col(name: &str, cells: Vec<Option<i64>>) -> Column {
    Column { name: name.to_string(), data: ColumnData::Int64(cells) }
}

fn float_col(name: &str, cells: Vec<Option<(i64, i64)>>) -> Column {
    Column {
        name: name.to_string(),
        data: ColumnData::Float64(
            cells.into_iter().map(|c| c.map(|(n, d)| Frac::new(n, d))).collect(),
        ),
    }
}

fn int_cells(batch: &Batch, idx: usize) -> Vec<Option<i64>> {
    match &batch.columns[idx].data {
        ColumnData::Int64(cells) => cells.clone(),
        other => panic!("expected an Int64 column, got {:?}", other),
    }
}

fn float_cells_f64(batch: &Batch, idx: usize) -> Vec<Option<f64>> {
    match &batch.columns[idx].data {
        ColumnData::Float64(cells) => cells
            .iter()
            .map(|c| c.map(|f| f.num as f64 / f.den as f64))
            .collect(),
        other => panic!("expected a Float64 column, got {:?}", other),
    }
}

fn fixed_interval(seconds: u64) -> TimeBinStrategy {
    TimeBinStrategy::FixedInterval {
        interval_seconds: seconds,
        interval_format: seconds.to_string(),
    }
}

fn bin_config(column: &str, strategy: TimeBinStrategy) -> TimeBinConfig {
    TimeBinConfig {
        selected_table: "events".to_string(),
        selected_column: column.to_string(),
        strategy,
        output_column_name: "bin".to_string(),
        output_filename: None,
    }
}

#[test]
fn fixed_interval_bins_time_of_day_column() {
    // The fixed-interval strategy measures elapsed time from the row where
    // the bin last changed: the third row sits a full minute after the
    // first, opening a new bin there.
    let batch = Batch {
        columns: vec![utf8_col(
            "ts",
            vec![Some("00:00:00"), Some("00:00:30"), Some("00:01:00"), Some("00:01:30")],
        )],
    };
    let (out, name) =
        TimeGroupingEngine::apply_grouping(batch, &bin_config("ts", fixed_interval(60))).unwrap();
    assert_eq!(name, "events_grouped");
    assert_eq!(int_cells(&out, 1), vec![Some(0), Some(0), Some(1), Some(1)]);
}

#[test]
fn fixed_interval_advances_when_a_gap_reaches_the_interval() {
    let batch = Batch {
        columns: vec![utf8_col(
            "ts",
            vec![Some("00:00:00"), Some("00:00:30"), Some("00:01:30"), Some("00:01:45")],
        )],
    };
    let (out, _) =
        TimeGroupingEngine::apply_grouping(batch, &bin_config("ts", fixed_interval(60))).unwrap();
    assert_eq!(int_cells(&out, 1), vec![Some(0), Some(0), Some(1), Some(1)]);
}

#[test]
fn value_change_assigns_run_indices() {
    let batch = Batch {
        columns: vec![utf8_col(
            "v",
            vec![Some("A"), Some("A"), Some("B"), Some("B"), Some("B"), Some("C")],
        )],
    };
    let processor = EnhancedGroupingProcessor::new();
    let config = GroupingConfig {
        rule: GroupingRule::ValueChange { column: "v".to_string() },
        output_column: "gid".to_string(),
        reset_on_change: false,
    };
    let out = processor.apply_grouping(batch, &config).unwrap();
    assert_eq!(out.columns[1].name, "gid");
    assert_eq!(int_cells(&out, 1), vec![Some(0), Some(0), Some(1), Some(1), Some(1), Some(2)]);
}

#[test]
fn delta_propagates_nulls_on_float_column() {
    let batch = Batch {
        columns: vec![float_col(
            "x",
            vec![Some((10, 1)), Some((20, 1)), None, Some((40, 1))],
        )],
    };
    let out = DataTransformer::new().apply_delta(batch, "x", "x_delta").unwrap();
    assert_eq!(float_cells_f64(&out, 1), vec![None, Some(10.0), None, None]);
}

#[test]
fn ratio_divides_and_nulls_zero_denominators() {
    let batch = Batch {
        columns: vec![
            int_col("num", vec![Some(10), Some(20), Some(30)]),
            int_col("den", vec![Some(2), Some(0), Some(5)]),
        ],
    };
    let out = DataTransformer::new().apply_ratio(batch, "num", "den", "ratio").unwrap();
    assert_eq!(float_cells_f64(&out, 2), vec![Some(5.0), None, Some(6.0)]);
}

#[test]
fn empty_batch_is_refused_by_time_binner() {
    let batch = Batch { columns: vec![utf8_col("ts", vec![])] };
    let err = TimeGroupingEngine::apply_grouping(batch, &bin_config("ts", fixed_interval(60)))
        .unwrap_err();
    assert!(matches!(err, TransformError::EmptyInput));
}

#[test]
fn empty_batch_is_refused_by_group_assigner() {
    let batch = Batch { columns: vec![utf8_col("v", vec![])] };
    let config = GroupingConfig {
        rule: GroupingRule::ValueChange { column: "v".to_string() },
        output_column: "gid".to_string(),
        reset_on_change: false,
    };
    let err = EnhancedGroupingProcessor::new().apply_grouping(batch, &config).unwrap_err();
    assert!(matches!(err, TransformError::EmptyInput));
}

#[test]
fn empty_batch_is_refused_by_column_computer() {
    let batch = Batch { columns: vec![int_col("x", vec![])] };
    let err = DataTransformer::new().apply_delta(batch, "x", "d").unwrap_err();
    assert!(matches!(err, TransformError::EmptyInput));
}

#[test]
fn delta_then_cumulative_sum_restores_offsets_from_first_row() {
    let values = vec![7i64, 11, 2, 40, 40, 13];
    let batch = Batch {
        columns: vec![int_col("x", values.iter().map(|v| Some(*v)).collect())],
    };
    let t = DataTransformer::new();
    let with_delta = t.apply_delta(batch, "x", "d").unwrap();
    let out = t
        .apply_cumulative_sum(with_delta, "d", "round_trip", &NullHandling::SkipNulls)
        .unwrap();
    let cells = int_cells(&out, 2);
    assert_eq!(cells[0], None);
    for i in 1..values.len() {
        assert_eq!(cells[i], Some(values[i] - values[0]));
    }
}

#[test]
fn percentages_sum_to_one_hundred() {
    let batch = Batch {
        columns: vec![int_col("x", vec![Some(12), Some(5), Some(19), Some(64)])],
    };
    let out = DataTransformer::new().apply_percentage(batch, "x", "pct").unwrap();
    let cells = float_cells_f64(&out, 1);
    let sum: f64 = cells.iter().map(|c| c.unwrap()).sum();
    assert!((sum - 100.0).abs() < 1e-9, "sum was {}", sum);
    assert_eq!(cells[0], Some(12.0));
}

#[test]
fn fixed_interval_bins_are_monotone_for_increasing_timestamps() {
    let batch = Batch {
        columns: vec![int_col(
            "ts",
            vec![Some(0), Some(10), Some(25), Some(100), Some(101), Some(200)],
        )],
    };
    let (out, _) =
        TimeGroupingEngine::apply_grouping(batch, &bin_config("ts", fixed_interval(30))).unwrap();
    let bins: Vec<i64> = int_cells(&out, 1).into_iter().map(|b| b.unwrap()).collect();
    for w in bins.windows(2) {
        assert!(w[0] <= w[1] && w[1] <= w[0] + 1);
    }
    assert_eq!(bins, vec![0, 0, 0, 1, 1, 2]);
}

#[test]
fn value_equals_marks_non_matching_rows_with_sentinel() {
    let batch = Batch {
        columns: vec![utf8_col(
            "v",
            vec![Some("on"), Some("off"), Some("on"), Some("on"), None, Some("on")],
        )],
    };
    let config = GroupingConfig {
        rule: GroupingRule::ValueEquals { column: "v".to_string(), value: "on".to_string() },
        output_column: "run".to_string(),
        reset_on_change: false,
    };
    let out = EnhancedGroupingProcessor::new().apply_grouping(batch, &config).unwrap();
    let ids = int_cells(&out, 1);
    assert_eq!(ids, vec![Some(1), Some(-1), Some(2), Some(2), Some(-1), Some(3)]);
}

#[test]
fn is_empty_carries_the_last_run_id_forward() {
    let batch = Batch {
        columns: vec![utf8_col(
            "v",
            vec![Some("a"), None, Some(""), Some("b"), None, Some("c")],
        )],
    };
    let config = GroupingConfig {
        rule: GroupingRule::IsEmpty { column: "v".to_string() },
        output_column: "grp".to_string(),
        reset_on_change: false,
    };
    let out = EnhancedGroupingProcessor::new().apply_grouping(batch, &config).unwrap();
    // The first empty run keeps id 0; the next empty run advances it, and
    // non-empty rows carry the last id forward.
    assert_eq!(int_cells(&out, 1), vec![Some(0), Some(0), Some(0), Some(0), Some(1), Some(1)]);
}

#[test]
fn value_change_reset_mode_freezes_ids_at_zero() {
    let batch = Batch {
        columns: vec![utf8_col("v", vec![Some("A"), Some("B"), Some("B"), Some("C")])],
    };
    let config = GroupingConfig {
        rule: GroupingRule::ValueChange { column: "v".to_string() },
        output_column: "gid".to_string(),
        reset_on_change: true,
    };
    let out = EnhancedGroupingProcessor::new().apply_grouping(batch, &config).unwrap();
    assert_eq!(int_cells(&out, 1), vec![Some(0), Some(0), Some(0), Some(0)]);
}

#[test]
fn threshold_binning_splits_on_strictly_larger_gaps() {
    let batch = Batch {
        columns: vec![int_col("ts", vec![Some(0), Some(50), Some(100), Some(201)])],
    };
    let strategy = TimeBinStrategy::ThresholdBased {
        threshold_seconds: 50,
        threshold_format: "50".to_string(),
    };
    let (out, _) = TimeGroupingEngine::apply_grouping(batch, &bin_config("ts", strategy)).unwrap();
    // Gaps of exactly 50 do not open a new bin; the 101-second gap does.
    assert_eq!(int_cells(&out, 1), vec![Some(0), Some(0), Some(0), Some(1)]);
}

#[test]
fn manual_intervals_count_boundaries_below_elapsed_time() {
    let batch = Batch {
        columns: vec![int_col("ts", vec![Some(1000), Some(1030), Some(1060), Some(1090)])],
    };
    let strategy = TimeBinStrategy::ManualIntervals {
        intervals: vec!["30".to_string(), "1:00".to_string()],
        interval_string: "30, 1:00".to_string(),
    };
    let (out, _) = TimeGroupingEngine::apply_grouping(batch, &bin_config("ts", strategy)).unwrap();
    // Elapsed offsets 0, 30, 60, 90 against boundaries 30 and 60.
    assert_eq!(int_cells(&out, 1), vec![Some(0), Some(1), Some(2), Some(2)]);
}

#[test]
fn null_timestamp_cells_get_null_bins() {
    let batch = Batch {
        columns: vec![int_col("ts", vec![Some(0), None, Some(70)])],
    };
    let (out, _) =
        TimeGroupingEngine::apply_grouping(batch, &bin_config("ts", fixed_interval(60))).unwrap();
    assert_eq!(int_cells(&out, 1), vec![Some(0), None, Some(1)]);
}
