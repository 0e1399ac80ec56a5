use leaf::column::{Batch, Column, ColumnData, PhysicalType};
use leaf::compute::{ComputationType, NullHandling};
use leaf::dialogs::{ComputedColumnsDialog, EnhancedGroupingDialog, TimeBasedGroupingDialog,
    TransformationDialog};
use leaf::error::TransformError;
use leaf::frac::Frac;
use leaf::grouping::{GroupingConfig, GroupingRule};
use leaf::pipeline::{ComputedColumnConfig, ComputedColumnsProcessor, ComputedColumnsRequest,
    EnhancedGroupingProcessor, EnhancedGroupingRequest, TimeGroupingEngine};
use leaf::timebin::TimeBinStrategy;
use leaf::transformer::{DataTransformer, SingleTransformation, TransformationManager,
    TransformationRequest, TransformationType};

fn int_col(name: &str, cells: Vec<Option<i64>>) -> Column {
    Column { name: name.to_string(), data: ColumnData::Int64(cells) }
}

fn float_col(name: &str, cells: Vec<Option<(i64, i64)>>) -> Column {
    Column {
        name: name.to_string(),
        data: ColumnData::Float64(
            cells.into_iter().map(|c| c.map(|(n, d)| Frac::new(n, d))).collect(),
        ),
    }
}

fn int_cells(batch: &Batch, idx: usize) -> Vec<Option<i64>> {
    match &batch.columns[idx].data {
        ColumnData::Int64(cells) => cells.clone(),
        other => panic!("expected an Int64 column, got {:?}", other),
    }
}

fn float_cells_f64(batch: &Batch, idx: usize) -> Vec<Option<f64>> {
    match &batch.columns[idx].data {
        ColumnData::Float64(cells) => cells
            .iter()
            .map(|c| c.map(|f| f.num as f64 / f.den as f64))
            .collect(),
        other => panic!("expected a Float64 column, got {:?}", other),
    }
}

fn delta_config(source: &str, output: &str) -> ComputedColumnConfig {
    ComputedColumnConfig {
        computation_type: ComputationType::Delta,
        source_column: source.to_string(),
        second_column: None,
        output_name: output.to_string(),
        window_size: 5,
        null_handling: NullHandling::SkipNulls,
    }
}

#[test]
fn cumulative_sum_skips_or_fills_nulls() {
    let t = DataTransformer::new();
    let batch = Batch { columns: vec![int_col("x", vec![Some(1), None, Some(2)])] };
    let skipped = t
        .apply_cumulative_sum(batch, "x", "total", &NullHandling::SkipNulls)
        .unwrap();
    assert_eq!(int_cells(&skipped, 1), vec![Some(1), None, Some(3)]);

    let batch = Batch { columns: vec![int_col("x", vec![Some(1), None, Some(2)])] };
    let filled = t
        .apply_cumulative_sum(batch, "x", "total", &NullHandling::FillWithZero)
        .unwrap();
    assert_eq!(int_cells(&filled, 1), vec![Some(1), Some(1), Some(3)]);
}

#[test]
fn cumulative_sum_keeps_the_float_family() {
    let t = DataTransformer::new();
    let batch = Batch {
        columns: vec![float_col("x", vec![Some((1, 2)), Some((1, 2)), None])],
    };
    let out = t
        .apply_cumulative_sum(batch, "x", "total", &NullHandling::SkipNulls)
        .unwrap();
    assert_eq!(float_cells_f64(&out, 1), vec![Some(0.5), Some(1.0), None]);
}

#[test]
fn moving_average_uses_a_trailing_window() {
    let t = DataTransformer::new();
    let batch = Batch {
        columns: vec![int_col("x", vec![Some(1), Some(2), Some(3), Some(4)])],
    };
    let out = t
        .apply_moving_average(batch, "x", "ma", 2, &NullHandling::SkipNulls)
        .unwrap();
    assert_eq!(float_cells_f64(&out, 1), vec![Some(1.0), Some(1.5), Some(2.5), Some(3.5)]);
}

#[test]
fn moving_average_skips_nulls_but_fill_counts_them_as_zero() {
    let t = DataTransformer::new();
    let batch = Batch { columns: vec![int_col("x", vec![Some(4), None, Some(2)])] };
    let skipped = t
        .apply_moving_average(batch, "x", "ma", 2, &NullHandling::SkipNulls)
        .unwrap();
    // The null row yields null; the last row averages the two most recent
    // non-null values.
    assert_eq!(float_cells_f64(&skipped, 1), vec![Some(4.0), None, Some(3.0)]);

    let batch = Batch { columns: vec![int_col("x", vec![Some(4), None, Some(2)])] };
    let filled = t
        .apply_moving_average(batch, "x", "ma", 2, &NullHandling::FillWithZero)
        .unwrap();
    assert_eq!(float_cells_f64(&filled, 1), vec![Some(4.0), Some(2.0), Some(1.0)]);
}

#[test]
fn zscore_is_exact_for_unit_variance() {
    let t = DataTransformer::new();
    let batch = Batch { columns: vec![int_col("x", vec![Some(1), Some(3)])] };
    let out = t.apply_zscore(batch, "x", "z").unwrap();
    assert_eq!(float_cells_f64(&out, 1), vec![Some(-1.0), Some(1.0)]);
}

#[test]
fn zscore_is_null_when_the_deviation_vanishes() {
    let t = DataTransformer::new();
    let batch = Batch { columns: vec![int_col("x", vec![Some(2), Some(2), Some(2)])] };
    let out = t.apply_zscore(batch, "x", "z").unwrap();
    assert_eq!(float_cells_f64(&out, 1), vec![None, None, None]);
}

#[test]
fn time_bin_quantizes_native_timestamps() {
    let t = DataTransformer::new();
    let batch = Batch {
        columns: vec![Column {
            name: "ts".to_string(),
            data: ColumnData::Timestamp(
                leaf::column::TimeUnit::Millisecond,
                vec![Some(0), Some(59_999), Some(60_000), None],
            ),
        }],
    };
    let out = t.apply_time_bin(batch, "ts", 60, "bin").unwrap();
    assert_eq!(int_cells(&out, 1), vec![Some(0), Some(0), Some(1), None]);
}

#[test]
fn row_ids_and_group_ids_are_sequential() {
    let t = DataTransformer::new();
    let batch = Batch {
        columns: vec![int_col("k", vec![Some(7), Some(7), Some(8), Some(8), Some(7)])],
    };
    let out = t
        .apply_row_id(batch, "rid", Some(&vec!["k".to_string()]))
        .unwrap();
    assert_eq!(int_cells(&out, 1), vec![Some(0), Some(1), Some(2), Some(3), Some(4)]);
    assert_eq!(out.columns[2].name, "rid_group");
    assert_eq!(int_cells(&out, 2), vec![Some(1), Some(1), Some(2), Some(2), Some(3)]);
}

#[test]
fn missing_columns_and_bad_types_are_reported() {
    let t = DataTransformer::new();
    let batch = Batch { columns: vec![int_col("x", vec![Some(1)])] };
    match t.apply_delta(batch, "nope", "d").unwrap_err() {
        TransformError::ColumnNotFound(name) => assert_eq!(name, "nope"),
        other => panic!("expected a missing column, got {:?}", other),
    }

    let batch = Batch {
        columns: vec![Column {
            name: "s".to_string(),
            data: ColumnData::Utf8(vec![Some("a".to_string())]),
        }],
    };
    assert!(matches!(
        t.apply_delta(batch, "s", "d").unwrap_err(),
        TransformError::UnsupportedType
    ));

    let batch = Batch { columns: vec![int_col("x", vec![Some(1), Some(2)])] };
    match t.apply_delta(batch, "x", "x").unwrap_err() {
        TransformError::DuplicateOutputName(name) => assert_eq!(name, "x"),
        other => panic!("expected a name collision, got {:?}", other),
    }
}

#[test]
fn unparseable_text_fails_the_whole_bin_column() {
    let batch = Batch {
        columns: vec![Column {
            name: "ts".to_string(),
            data: ColumnData::Utf8(vec![Some("00:00:00".to_string()), Some("later".to_string())]),
        }],
    };
    let config = leaf::timebin::TimeBinConfig {
        selected_table: "t".to_string(),
        selected_column: "ts".to_string(),
        strategy: TimeBinStrategy::FixedInterval {
            interval_seconds: 60,
            interval_format: "60".to_string(),
        },
        output_column_name: "bin".to_string(),
        output_filename: None,
    };
    match TimeGroupingEngine::apply_grouping(batch, &config).unwrap_err() {
        TransformError::ParseFailure { value, .. } => assert_eq!(value, "later"),
        other => panic!("expected a parse failure, got {:?}", other),
    }
}

#[test]
fn grouping_request_folds_rules_and_names_the_artifact() {
    let batch = Batch {
        columns: vec![Column {
            name: "v".to_string(),
            data: ColumnData::Utf8(vec![Some("a".to_string()), Some("b".to_string())]),
        }],
    };
    let request = EnhancedGroupingRequest {
        table_name: "events.csv".to_string(),
        configurations: vec![
            GroupingConfig {
                rule: GroupingRule::ValueChange { column: "v".to_string() },
                output_column: "g1".to_string(),
                reset_on_change: false,
            },
            GroupingConfig {
                rule: GroupingRule::IsEmpty { column: "v".to_string() },
                output_column: "g2".to_string(),
                reset_on_change: false,
            },
        ],
        output_filename: None,
    };
    let (out, name) = EnhancedGroupingProcessor::new().process_request(&request, batch).unwrap();
    assert_eq!(name, "events_with_g1_g2.arrow");
    assert_eq!(out.columns.len(), 3);
    assert_eq!(out.columns[1].name, "g1");
    assert_eq!(out.columns[2].name, "g2");
}

#[test]
fn custom_output_names_get_the_artifact_extension() {
    let batch = Batch { columns: vec![int_col("x", vec![Some(1), Some(2)])] };
    let request = ComputedColumnsRequest {
        table_name: "t".to_string(),
        configurations: vec![delta_config("x", "d")],
        output_filename: Some("my_result".to_string()),
    };
    let (_, name) = ComputedColumnsProcessor::new().process_request(&request, batch).unwrap();
    assert_eq!(name, "my_result.arrow");

    let batch = Batch { columns: vec![int_col("x", vec![Some(1), Some(2)])] };
    let request = ComputedColumnsRequest {
        table_name: "t".to_string(),
        configurations: vec![delta_config("x", "d")],
        output_filename: Some("already.arrow".to_string()),
    };
    let (_, name) = ComputedColumnsProcessor::new().process_request(&request, batch).unwrap();
    assert_eq!(name, "already.arrow");
}

#[test]
fn generated_names_summarize_past_three_steps() {
    let processor = ComputedColumnsProcessor::new();
    let configs = vec![
        delta_config("a", "d1"),
        delta_config("b", "d2"),
        delta_config("c", "d3"),
        delta_config("d", "d4"),
    ];
    let name = processor.generate_output_filename("t.parquet", &configs);
    assert_eq!(name, "t_delta_a_delta_b_delta_c_and_1_more.arrow");

    let one = processor.generate_output_filename("t", &vec![ComputedColumnConfig {
        computation_type: ComputationType::MovingAverage,
        source_column: "x".to_string(),
        second_column: None,
        output_name: "m".to_string(),
        window_size: 7,
        null_handling: NullHandling::SkipNulls,
    }]);
    assert_eq!(one, "t_ma7_x.arrow");
}

#[test]
fn computed_request_applies_every_configuration() {
    let batch = Batch {
        columns: vec![
            int_col("x", vec![Some(2), Some(4), Some(6)]),
            int_col("y", vec![Some(1), Some(2), Some(3)]),
        ],
    };
    let request = ComputedColumnsRequest {
        table_name: "t".to_string(),
        configurations: vec![
            ComputedColumnConfig {
                computation_type: ComputationType::Ratio,
                source_column: "x".to_string(),
                second_column: Some("y".to_string()),
                output_name: "r".to_string(),
                window_size: 5,
                null_handling: NullHandling::SkipNulls,
            },
            ComputedColumnConfig {
                computation_type: ComputationType::Percentage,
                source_column: "y".to_string(),
                second_column: None,
                output_name: "p".to_string(),
                window_size: 5,
                null_handling: NullHandling::SkipNulls,
            },
        ],
        output_filename: None,
    };
    let (out, name) = ComputedColumnsProcessor::new().process_request(&request, batch).unwrap();
    assert_eq!(name, "t_ratio_x_y_pct_y.arrow");
    assert_eq!(float_cells_f64(&out, 2), vec![Some(2.0), Some(2.0), Some(2.0)]);
    let pct = float_cells_f64(&out, 3);
    assert!((pct[2].unwrap() - 50.0).abs() < 1e-12);
}

#[test]
fn rows_are_typed_by_detection_before_transforming() {
    let manager = TransformationManager::new();
    let rows = vec![
        vec!["1".to_string(), "1.5".to_string(), "a".to_string()],
        vec!["2".to_string(), "NULL".to_string(), "b".to_string()],
        vec!["3".to_string(), " 2.5 ".to_string(), "c".to_string()],
    ];
    let names = vec!["i".to_string(), "f".to_string(), "s".to_string()];
    let batch = manager.convert_rows_to_batch(&rows, &names).unwrap();
    assert!(matches!(batch.columns[0].data, ColumnData::Int64(_)));
    assert!(matches!(batch.columns[1].data, ColumnData::Float64(_)));
    assert!(matches!(batch.columns[2].data, ColumnData::Utf8(_)));
    assert_eq!(int_cells(&batch, 0), vec![Some(1), Some(2), Some(3)]);
    assert_eq!(float_cells_f64(&batch, 1), vec![Some(1.5), None, Some(2.5)]);
}

#[test]
fn transformation_requests_fold_and_name_the_result() {
    let manager = TransformationManager::new();
    let rows = vec![
        vec!["10".to_string()],
        vec!["25".to_string()],
        vec!["45".to_string()],
    ];
    let names = vec!["x".to_string()];
    let request = TransformationRequest {
        table_name: "t".to_string(),
        transformations: vec![SingleTransformation {
            transformation_type: TransformationType::Delta,
            selected_columns: vec!["x".to_string()],
            output_column_names: vec![],
            output_column_name: "dx".to_string(),
            bin_size: String::new(),
            time_column: None,
            grouping_columns: None,
        }],
    };
    let (out, name) = manager.apply_transformation(&request, &rows, &names).unwrap();
    assert_eq!(name, "t_with_deltas.arrow");
    assert_eq!(int_cells(&out, 1), vec![None, Some(15), Some(20)]);
}

#[test]
fn numeric_and_timestamp_column_listings_follow_the_schema() {
    let t = DataTransformer::new();
    let batch = Batch {
        columns: vec![
            int_col("a", vec![Some(1)]),
            Column {
                name: "s".to_string(),
                data: ColumnData::Utf8(vec![Some("x".to_string())]),
            },
            float_col("b", vec![Some((1, 2))]),
            Column {
                name: "ts".to_string(),
                data: ColumnData::Timestamp(leaf::column::TimeUnit::Second, vec![Some(1)]),
            },
        ],
    };
    assert_eq!(t.get_numeric_columns(&batch), vec!["a".to_string(), "b".to_string()]);
    assert_eq!(t.get_timestamp_columns(&batch), vec!["ts".to_string()]);
}

#[test]
fn computed_dialog_validates_the_edited_configuration() {
    let mut d = ComputedColumnsDialog::new();
    assert!(!d.validate_current_config());
    d.source_column = "x".to_string();
    d.update_output_name();
    assert_eq!(d.output_name, "x_delta");
    assert!(d.validate_current_config());
    assert!(d.error_message.is_none());

    d.computation_type = ComputationType::Ratio;
    assert!(!d.validate_current_config());
    d.second_column = "y".to_string();
    assert!(d.validate_current_config());

    d.computation_type = ComputationType::MovingAverage;
    d.window_size = "not a number".to_string();
    assert!(!d.validate_current_config());
    d.window_size = "5".to_string();
    assert!(d.validate_current_config());

    d.configurations.push(delta_config("x", "x_ratio"));
    d.computation_type = ComputationType::Ratio;
    d.update_output_name();
    assert!(!d.validate_current_config());

    d.clear_current_config();
    assert!(d.source_column.is_empty());
    d.update_available_tables(vec!["t".to_string()]);
    assert_eq!(d.available_tables, vec!["t".to_string()]);
    d.update_available_columns(
        vec!["a".to_string(), "s".to_string()],
        vec![PhysicalType::Int64, PhysicalType::Utf8],
    );
    assert_eq!(d.numeric_columns, vec!["a".to_string()]);
    d.generate_preview();
    assert!(d.show_preview);
    d.reset();
    assert!(d.configurations.is_empty());
}

#[test]
fn grouping_dialog_validates_the_edited_rule() {
    let mut d = EnhancedGroupingDialog::new();
    assert!(!d.validate_current_config());
    d.selected_column = "v".to_string();
    d.output_name = "gid".to_string();
    assert!(d.validate_current_config());

    d.rule_type = "value_equals".to_string();
    assert!(!d.validate_current_config());
    d.value_input = "on".to_string();
    assert!(d.validate_current_config());

    d.configurations.push(GroupingConfig {
        rule: GroupingRule::ValueChange { column: "v".to_string() },
        output_column: "gid".to_string(),
        reset_on_change: false,
    });
    assert!(!d.validate_current_config());
    d.clear_current_config();
    assert!(d.output_name.is_empty());
    d.update_available_tables(vec!["t".to_string()]);
    d.update_available_columns(vec!["v".to_string()]);
    assert_eq!(d.available_columns, vec!["v".to_string()]);
    d.reset();
    assert!(d.configurations.is_empty());
}

#[test]
fn transformation_dialog_filters_numeric_columns() {
    let mut d = TransformationDialog::new();
    d.update_available_tables(vec!["t".to_string()]);
    d.update_available_columns(
        vec!["a".to_string(), "s".to_string(), "b".to_string()],
        vec![PhysicalType::Int64, PhysicalType::Utf8, PhysicalType::Float64],
    );
    assert_eq!(d.available_columns, vec!["a".to_string(), "b".to_string()]);
    d.selected_column = "a".to_string();
    d.reset_transformation_state();
    assert!(d.selected_column.is_empty());
    d.reset();
    assert!(d.selected_table.is_none());
}

#[test]
fn time_grouping_dialog_runs_the_engine() {
    let mut d = TimeBasedGroupingDialog::new();
    assert_eq!(TimeBasedGroupingDialog::parse_time_format_static("1:30"), Some(90));
    assert_eq!(d.parse_time_format("75"), Some(75));

    let batch = Batch { columns: vec![int_col("ts", vec![Some(0), Some(70)])] };
    // Nothing selected yet: the dialog refuses and records a message.
    assert!(d.apply_grouping(batch).is_none());
    assert!(d.error_message.is_some());

    d.update_available_tables(vec!["events".to_string()]);
    d.update_available_columns(vec!["ts".to_string()]);
    assert_eq!(d.selected_table, "events");
    assert_eq!(d.selected_column, "ts");
    d.strategy = TimeBinStrategy::FixedInterval {
        interval_seconds: 60,
        interval_format: "60".to_string(),
    };
    let batch = Batch { columns: vec![int_col("ts", vec![Some(0), Some(70)])] };
    let (out, name) = d.apply_grouping(batch).unwrap();
    assert_eq!(name, "events_grouped");
    assert_eq!(out.columns[1].name, "time_group");
    assert_eq!(int_cells(&out, 1), vec![Some(0), Some(1)]);
    assert!(d.success_message.is_some());
}

#[test]
fn computation_catalog_is_complete() {
    let all = ComputationType::all();
    assert_eq!(all.len(), 6);
    assert!(all.iter().all(|c| !c.display_name().is_empty()));
    assert!(all.iter().all(|c| !c.description().is_empty()));
    assert!(ComputationType::Ratio.requires_second_column());
    assert!(!ComputationType::Delta.requires_second_column());
    assert!(ComputationType::MovingAverage.supports_window_size());
    assert!(!ComputationType::ZScore.supports_window_size());
    let rule = GroupingRule::ValueEquals { column: "v".to_string(), value: "x".to_string() };
    assert_eq!(rule.display_name(), "When 'v' = 'x'");
}

#[test]
fn delta_widens_int32_sources_to_int64() {
    let t = DataTransformer::new();
    let batch = Batch {
        columns: vec![Column {
            name: "x".to_string(),
            data: ColumnData::Int32(vec![Some(5), Some(9), None]),
        }],
    };
    let out = t.apply_delta(batch, "x", "d").unwrap();
    assert_eq!(int_cells(&out, 1), vec![None, Some(4), None]);
}

#[test]
fn delta_applies_to_many_columns_with_matching_names() {
    let t = DataTransformer::new();
    let batch = Batch {
        columns: vec![
            int_col("a", vec![Some(1), Some(3)]),
            int_col("b", vec![Some(10), Some(14)]),
        ],
    };
    let out = t
        .apply_delta_multiple_custom(
            batch,
            &vec!["a".to_string(), "b".to_string()],
            &vec!["da".to_string(), "db".to_string()],
        )
        .unwrap();
    assert_eq!(int_cells(&out, 2), vec![None, Some(2)]);
    assert_eq!(int_cells(&out, 3), vec![None, Some(4)]);

    let batch = Batch { columns: vec![int_col("a", vec![Some(1)])] };
    assert!(matches!(
        t.apply_delta_multiple_custom(batch, &vec!["a".to_string()], &vec![])
            .unwrap_err(),
        TransformError::UnsupportedType
    ));
}

#[test]
fn percentage_of_a_zero_total_is_all_null() {
    let t = DataTransformer::new();
    let batch = Batch { columns: vec![int_col("x", vec![Some(5), Some(-5)])] };
    let out = t.apply_percentage(batch, "x", "p").unwrap();
    assert_eq!(float_cells_f64(&out, 1), vec![None, None]);
}

#[test]
fn percentage_of_a_negative_total_keeps_exact_shares() {
    let t = DataTransformer::new();
    let batch = Batch { columns: vec![int_col("x", vec![Some(-1), Some(-3)])] };
    let out = t.apply_percentage(batch, "x", "p").unwrap();
    assert_eq!(float_cells_f64(&out, 1), vec![Some(25.0), Some(75.0)]);
}

#[test]
fn cumulative_sum_reports_overflow_instead_of_wrapping() {
    let t = DataTransformer::new();
    let batch = Batch {
        columns: vec![int_col("x", vec![Some(i64::MAX), Some(1)])],
    };
    assert!(matches!(
        t.apply_cumulative_sum(batch, "x", "s", &NullHandling::SkipNulls)
            .unwrap_err(),
        TransformError::NumericOverflow
    ));
}

#[test]
fn value_equals_reset_mode_freezes_run_ids_at_zero() {
    let batch = Batch {
        columns: vec![Column {
            name: "v".to_string(),
            data: ColumnData::Utf8(vec![
                Some("on".to_string()),
                Some("off".to_string()),
                Some("on".to_string()),
            ]),
        }],
    };
    let config = GroupingConfig {
        rule: GroupingRule::ValueEquals { column: "v".to_string(), value: "on".to_string() },
        output_column: "run".to_string(),
        reset_on_change: true,
    };
    let out = EnhancedGroupingProcessor::new().apply_grouping(batch, &config).unwrap();
    assert_eq!(int_cells(&out, 1), vec![Some(0), Some(-1), Some(0)]);
}

#[test]
fn grouping_filenames_summarize_past_three_rules() {
    let configs: Vec<GroupingConfig> = ["a", "b", "c", "d", "e"]
        .iter()
        .map(|n| GroupingConfig {
            rule: GroupingRule::ValueChange { column: "v".to_string() },
            output_column: n.to_string(),
            reset_on_change: false,
        })
        .collect();
    let name = EnhancedGroupingProcessor::new().generate_output_filename("t.arrow", &configs);
    assert_eq!(name, "t_with_a_b_c_and_2_more.arrow");
}

#[test]
fn group_keys_render_dates_and_nulls_consistently() {
    let t = DataTransformer::new();
    let dates = ColumnData::Date(vec![Some(19723), None]);
    assert_eq!(t.format_array_value(&dates, 0), "19723");
    assert_eq!(t.format_array_value(&dates, 1), "null");
}
