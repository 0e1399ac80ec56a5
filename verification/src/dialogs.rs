use vstd::prelude::*;
use vstd::string::StringExecFns;
use crate::column::{Batch, PhysicalType};
use crate::compute::{ComputationType, NullHandling};
use crate::grouping::GroupingConfig;
use crate::pipeline::{ComputedColumnConfig, TimeGroupingEngine};
use crate::timebin::{TimeBinConfig, TimeBinStrategy};
use crate::timestamp::duration_chars;

verus! {

impl ComputationType {
    /// Every computation, in menu order.
    pub fn all() -> (r: Vec<ComputationType>)
        ensures
            r@ =~= seq![
                ComputationType::Delta,
                ComputationType::CumulativeSum,
                ComputationType::Percentage,
                ComputationType::Ratio,
                ComputationType::MovingAverage,
                ComputationType::ZScore,
            ],
    {
        let mut v: Vec<ComputationType> = Vec::new();
        v.push(ComputationType::Delta);
        v.push(ComputationType::CumulativeSum);
        v.push(ComputationType::Percentage);
        v.push(ComputationType::Ratio);
        v.push(ComputationType::MovingAverage);
        v.push(ComputationType::ZScore);
        v
    }

    /// The menu label of the computation.
    pub fn display_name(&self) -> (r: &'static str)
        ensures
            r@.len() > 0,
    {
        proof {
            reveal_strlit("Delta (Row-to-Row Difference)");
            reveal_strlit("Cumulative Sum");
            reveal_strlit("Percentage of Total");
            reveal_strlit("Ratio (Column A / Column B)");
            reveal_strlit("Moving Average");
            reveal_strlit("Z-Score Normalization");
        }
        match self {
            ComputationType::Delta => "Delta (Row-to-Row Difference)",
            ComputationType::CumulativeSum => "Cumulative Sum",
            ComputationType::Percentage => "Percentage of Total",
            ComputationType::Ratio => "Ratio (Column A / Column B)",
            ComputationType::MovingAverage => "Moving Average",
            ComputationType::ZScore => "Z-Score Normalization",
        }
    }

    /// A one-line description of the computation.
    pub fn description(&self) -> (r: &'static str)
        ensures
            r@.len() > 0,
    {
        proof {
            reveal_strlit("Shows the change from one row to the next (e.g., daily temperature change)");
            reveal_strlit("Running total that adds up as you go down (e.g., total sales to date)");
            reveal_strlit("What percent each value is of the total (e.g., market share)");
            reveal_strlit("Divide one column by another (e.g., revenue per employee)");
            reveal_strlit("Smooth out variations by averaging nearby values");
            reveal_strlit("Show how many standard deviations from average (for outlier detection)");
        }
        match self {
            ComputationType::Delta => "Shows the change from one row to the next (e.g., daily temperature change)",
            ComputationType::CumulativeSum => "Running total that adds up as you go down (e.g., total sales to date)",
            ComputationType::Percentage => "What percent each value is of the total (e.g., market share)",
            ComputationType::Ratio => "Divide one column by another (e.g., revenue per employee)",
            ComputationType::MovingAverage => "Smooth out variations by averaging nearby values",
            ComputationType::ZScore => "Show how many standard deviations from average (for outlier detection)",
        }
    }

    /// Whether the computation divides by a second column.
    pub fn requires_second_column(&self) -> (r: bool)
        ensures
            r == (*self == ComputationType::Ratio),
    {
        match self {
            ComputationType::Ratio => true,
            _ => false,
        }
    }

    /// Whether the computation takes a window size.
    pub fn supports_window_size(&self) -> (r: bool)
        ensures
            r == (*self == ComputationType::MovingAverage),
    {
        match self {
            ComputationType::MovingAverage => true,
            _ => false,
        }
    }
}

/// Illustrative preview rows shown by the computed-columns dialog.
#[derive(Debug, Clone)]
pub struct PreviewRow {
    pub row_num: usize,
    pub source_value: String,
    pub second_value: Option<String>,
    pub result_value: String,
}

#[derive(Debug, Clone)]
pub struct PreviewData {
    pub rows: Vec<PreviewRow>,
}

// ---------------------------------------------------------------------------
// Computed columns dialog
// ---------------------------------------------------------------------------
/// The state behind the computed-columns window: the chosen table and
/// columns, the configuration being edited, the configurations queued so
/// far, and the user-facing messages. Rendering and data access live with
/// the surrounding application; this state machine only validates and
/// assembles configurations.
#[derive(Debug, Clone)]
pub struct ComputedColumnsDialog {
    pub visible: bool,
    pub selected_table: Option<String>,
    pub available_tables: Vec<String>,
    pub available_columns: Vec<String>,
    pub numeric_columns: Vec<String>,
    pub computation_type: ComputationType,
    pub source_column: String,
    pub second_column: String,
    pub output_name: String,
    pub window_size: String,
    pub null_handling: NullHandling,
    pub configurations: Vec<ComputedColumnConfig>,
    pub error_message: Option<String>,
    pub success_message: Option<String>,
    pub show_preview: bool,
    pub preview_data: Option<PreviewData>,
    pub output_filename: String,
}

/// Whether the configuration being edited is complete: a source column, a
/// second column where the computation needs one, a fresh output name, and
/// a readable window size where one applies.
pub open spec fn computed_config_valid(d: ComputedColumnsDialog) -> bool {
    &&& d.source_column@.len() > 0
    &&& (d.computation_type == ComputationType::Ratio ==> d.second_column@.len() > 0)
    &&& d.output_name@.len() > 0
    &&& !(exists|k: int|
        0 <= k < d.configurations@.len() && (#[trigger] d.configurations@[k].output_name@)
            == d.output_name@)
    &&& (d.computation_type == ComputationType::MovingAverage
        ==> crate::text::parse_u64_chars(d.window_size@) is Some)
}

impl ComputedColumnsDialog {
    /// The initial dialog state: nothing chosen, a delta computation, a
    /// five-row window, nulls skipped.
    pub fn new() -> (r: ComputedColumnsDialog)
        ensures
            !r.visible,
            r.selected_table is None,
            r.available_tables@.len() == 0,
            r.available_columns@.len() == 0,
            r.numeric_columns@.len() == 0,
            r.computation_type == ComputationType::Delta,
            r.source_column@.len() == 0,
            r.second_column@.len() == 0,
            r.output_name@.len() == 0,
            r.window_size@ == "5"@,
            r.null_handling == NullHandling::SkipNulls,
            r.configurations@.len() == 0,
            r.error_message is None,
            r.success_message is None,
            !r.show_preview,
            r.preview_data is None,
            r.output_filename@.len() == 0,
    {
        ComputedColumnsDialog {
            visible: false,
            selected_table: None,
            available_tables: Vec::new(),
            available_columns: Vec::new(),
            numeric_columns: Vec::new(),
            computation_type: ComputationType::Delta,
            source_column: String::new(),
            second_column: String::new(),
            output_name: String::new(),
            window_size: String::from_str("5"),
            null_handling: NullHandling::SkipNulls,
            configurations: Vec::new(),
            error_message: None,
            success_message: None,
            show_preview: false,
            preview_data: None,
            output_filename: String::new(),
        }
    }

    /// Derives the output column name from the computation and the source
    /// column, when a source column is chosen.
    pub fn update_output_name(&mut self)
        ensures
            old(self).source_column@.len() == 0 ==> *final(self) == *old(self),
            old(self).source_column@.len() > 0 ==> *final(self) == (ComputedColumnsDialog {
                output_name: final(self).output_name,
                ..*old(self)
            }) && final(self).output_name@ == old(self).source_column@ + (
            match old(self).computation_type {
                ComputationType::Delta => "_delta"@,
                ComputationType::CumulativeSum => "_cumsum"@,
                ComputationType::Percentage => "_pct"@,
                ComputationType::Ratio => "_ratio"@,
                ComputationType::MovingAverage => "_ma"@,
                ComputationType::ZScore => "_zscore"@,
            }),
    {
        if self.source_column.as_str().unicode_len() > 0 {
            let mut name = self.source_column.clone();
            match self.computation_type {
                ComputationType::Delta => name.append("_delta"),
                ComputationType::CumulativeSum => name.append("_cumsum"),
                ComputationType::Percentage => name.append("_pct"),
                ComputationType::Ratio => name.append("_ratio"),
                ComputationType::MovingAverage => name.append("_ma"),
                ComputationType::ZScore => name.append("_zscore"),
            }
            self.output_name = name;
        }
    }

    /// Checks the configuration being edited, recording a message for the
    /// first failing requirement; true exactly when it is complete.
    pub fn validate_current_config(&mut self) -> (r: bool)
        ensures
            r == computed_config_valid(*old(self)),
            *final(self) == (ComputedColumnsDialog {
                error_message: final(self).error_message,
                ..*old(self)
            }),
            r <==> final(self).error_message is None,
    {
        proof {
            reveal_strlit("Please select a source column");
            reveal_strlit("Please select a second column for ratio");
            reveal_strlit("Please provide an output column name");
            reveal_strlit("Output column name already exists");
            reveal_strlit("Invalid window size");
        }
        self.error_message = None;
        if self.source_column.as_str().unicode_len() == 0 {
            self.error_message = Some(String::from_str("Please select a source column"));
            return false;
        }
        if self.computation_type.requires_second_column() && self.second_column.as_str().unicode_len() == 0 {
            self.error_message = Some(String::from_str("Please select a second column for ratio"));
            return false;
        }
        if self.output_name.as_str().unicode_len() == 0 {
            self.error_message = Some(String::from_str("Please provide an output column name"));
            return false;
        }
        let m = self.configurations.len();
        for k in 0..m
            invariant
                m == self.configurations@.len(),
                forall|j: int|
                    0 <= j < k ==> (#[trigger] self.configurations@[j].output_name@)
                        != self.output_name@,
                *self == (ComputedColumnsDialog { error_message: None, ..*old(self) }),
        {
            if crate::text::str_eq(
                self.configurations[k].output_name.as_str(),
                self.output_name.as_str(),
            ) {
                self.error_message = Some(
                    String::from_str("Output column name already exists"),
                );
                return false;
            }
        }
        if self.computation_type.supports_window_size() {
            if crate::text::parse_u64(self.window_size.as_str()).is_none() {
                self.error_message = Some(String::from_str("Invalid window size"));
                return false;
            }
        }
        true
    }

    /// Clears the configuration being edited.
    pub fn clear_current_config(&mut self)
        ensures
            *final(self) == (ComputedColumnsDialog {
                source_column: final(self).source_column,
                second_column: final(self).second_column,
                output_name: final(self).output_name,
                error_message: None,
                ..*old(self)
            }),
            final(self).source_column@.len() == 0,
            final(self).second_column@.len() == 0,
            final(self).output_name@.len() == 0,
    {
        self.source_column = String::new();
        self.second_column = String::new();
        self.output_name = String::new();
        self.error_message = None;
    }

    /// Turns the preview on, with the fixed illustrative rows.
    pub fn generate_preview(&mut self)
        ensures
            final(self).show_preview,
            final(self).preview_data is Some,
            *final(self) == (ComputedColumnsDialog {
                show_preview: true,
                preview_data: final(self).preview_data,
                ..*old(self)
            }),
    {
        self.show_preview = true;
        let mut rows: Vec<PreviewRow> = Vec::new();
        rows.push(
            PreviewRow {
                row_num: 1,
                source_value: String::from_str("63.78"),
                second_value: None,
                result_value: String::from_str("NULL"),
            },
        );
        rows.push(
            PreviewRow {
                row_num: 2,
                source_value: String::from_str("116.97"),
                second_value: None,
                result_value: String::from_str("53.19"),
            },
        );
        rows.push(
            PreviewRow {
                row_num: 3,
                source_value: String::from_str("194.03"),
                second_value: None,
                result_value: String::from_str("77.06"),
            },
        );
        self.preview_data = Some(PreviewData { rows });
    }

    /// Replaces the list of tables offered for selection.
    pub fn update_available_tables(&mut self, tables: Vec<String>)
        ensures
            *final(self) == (ComputedColumnsDialog { available_tables: tables, ..*old(self) }),
    {
        self.available_tables = tables;
    }

    /// Replaces the column lists: all columns, and the numeric ones a
    /// computation may read (the 64-bit numeric types).
    pub fn update_available_columns(&mut self, columns: Vec<String>, types: Vec<PhysicalType>)
        requires
            columns@.len() == types@.len(),
        ensures
            final(self).available_columns@ == columns@,
            final(self).numeric_columns@.map_values(|s: String| s@) == numeric_names_of(
                columns@,
                types@,
            ),
            *final(self) == (ComputedColumnsDialog {
                available_columns: final(self).available_columns,
                numeric_columns: final(self).numeric_columns,
                ..*old(self)
            }),
    {
        let n = columns.len();
        let mut numeric: Vec<String> = Vec::new();
        for i in 0..n
            invariant
                n == columns@.len(),
                n == types@.len(),
                numeric@.map_values(|s: String| s@) =~= numeric_names_of(
                    columns@.subrange(0, i as int),
                    types@.subrange(0, i as int),
                ),
        {
            proof {
                assert(columns@.subrange(0, i + 1).drop_last() =~= columns@.subrange(0, i as int));
                assert(types@.subrange(0, i + 1).drop_last() =~= types@.subrange(0, i as int));
                assert(columns@.subrange(0, i + 1).last() == columns@[i as int]);
                assert(types@.subrange(0, i + 1).last() == types@[i as int]);
            }
            let keep = match types[i] {
                PhysicalType::Int64 => true,
                PhysicalType::Float64 => true,
                _ => false,
            };
            if keep {
                numeric.push(columns[i].clone());
            }
            proof {
                assert(numeric@.map_values(|s: String| s@) =~= numeric_names_of(
                    columns@.subrange(0, i + 1),
                    types@.subrange(0, i + 1),
                ));
            }
        }
        proof {
            assert(columns@.subrange(0, n as int) =~= columns@);
            assert(types@.subrange(0, n as int) =~= types@);
        }
        self.available_columns = columns;
        self.numeric_columns = numeric;
    }

    /// Returns the dialog to its initial state.
    pub fn reset(&mut self)
        ensures
            !final(self).visible,
            final(self).selected_table is None,
            final(self).configurations@.len() == 0,
            final(self).error_message is None,
            final(self).success_message is None,
            final(self).source_column@.len() == 0,
            final(self).output_name@.len() == 0,
    {
        *self = Self::new();
    }
}

/// The names whose paired type is 64-bit numeric, in order.
pub open spec fn numeric_names_of(columns: Seq<String>, types: Seq<PhysicalType>) -> Seq<
    Seq<char>,
>
    decreases columns.len(),
{
    if columns.len() == 0 || types.len() == 0 {
        Seq::empty()
    } else {
        let rest = numeric_names_of(columns.drop_last(), types.drop_last());
        if types.last() == PhysicalType::Int64 || types.last() == PhysicalType::Float64 {
            rest.push(columns.last()@)
        } else {
            rest
        }
    }
}

// ---------------------------------------------------------------------------
// Enhanced grouping dialog
// ---------------------------------------------------------------------------
/// The state behind the group-id window: the chosen table and column, the
/// rule being edited, the rules queued so far, and the user-facing
/// messages.
#[derive(Debug, Clone)]
pub struct EnhancedGroupingDialog {
    pub visible: bool,
    pub selected_table: Option<String>,
    pub available_tables: Vec<String>,
    pub available_columns: Vec<String>,
    pub rule_type: String,
    pub selected_column: String,
    pub value_input: String,
    pub threshold_input: String,
    pub output_name: String,
    pub reset_on_change: bool,
    pub configurations: Vec<GroupingConfig>,
    pub error_message: Option<String>,
    pub success_message: Option<String>,
    pub show_preview: bool,
    pub example_type: String,
    pub output_filename: String,
}

/// Whether the rule being edited is complete: a column, a fresh output
/// name, and a target value for the value-equals rule.
pub open spec fn grouping_config_valid(d: EnhancedGroupingDialog) -> bool {
    &&& d.selected_column@.len() > 0
    &&& d.output_name@.len() > 0
    &&& (d.rule_type@ == "value_equals"@ ==> d.value_input@.len() > 0)
    &&& !(exists|k: int|
        0 <= k < d.configurations@.len() && (#[trigger] d.configurations@[k].output_column@)
            == d.output_name@)
}

impl EnhancedGroupingDialog {
    /// The initial dialog state: the value-change rule, a sixty-second
    /// threshold text, reset mode on.
    pub fn new() -> (r: EnhancedGroupingDialog)
        ensures
            !r.visible,
            r.selected_table is None,
            r.available_tables@.len() == 0,
            r.available_columns@.len() == 0,
            r.rule_type@ == "value_change"@,
            r.selected_column@.len() == 0,
            r.value_input@.len() == 0,
            r.threshold_input@ == "60"@,
            r.output_name@.len() == 0,
            r.reset_on_change,
            r.configurations@.len() == 0,
            r.error_message is None,
            r.success_message is None,
            !r.show_preview,
            r.example_type@ == "Value Change"@,
            r.output_filename@.len() == 0,
    {
        EnhancedGroupingDialog {
            visible: false,
            selected_table: None,
            available_tables: Vec::new(),
            available_columns: Vec::new(),
            rule_type: String::from_str("value_change"),
            selected_column: String::new(),
            value_input: String::new(),
            threshold_input: String::from_str("60"),
            output_name: String::new(),
            reset_on_change: true,
            configurations: Vec::new(),
            error_message: None,
            success_message: None,
            show_preview: false,
            example_type: String::from_str("Value Change"),
            output_filename: String::new(),
        }
    }

    /// Checks the rule being edited, recording a message for the first
    /// failing requirement; true exactly when it is complete.
    pub fn validate_current_config(&mut self) -> (r: bool)
        ensures
            r == grouping_config_valid(*old(self)),
            *final(self) == (EnhancedGroupingDialog {
                error_message: final(self).error_message,
                ..*old(self)
            }),
            r <==> final(self).error_message is None,
    {
        proof {
            reveal_strlit("Please select a column");
            reveal_strlit("Please provide an output column name");
            reveal_strlit("Please provide a value to match");
            reveal_strlit("Output column name already exists");
            reveal_strlit("value_equals");
        }
        self.error_message = None;
        if self.selected_column.as_str().unicode_len() == 0 {
            self.error_message = Some(String::from_str("Please select a column"));
            return false;
        }
        if self.output_name.as_str().unicode_len() == 0 {
            self.error_message = Some(String::from_str("Please provide an output column name"));
            return false;
        }
        if crate::text::str_eq(self.rule_type.as_str(), "value_equals")
            && self.value_input.as_str().unicode_len() == 0 {
            self.error_message = Some(String::from_str("Please provide a value to match"));
            return false;
        }
        let m = self.configurations.len();
        for k in 0..m
            invariant
                m == self.configurations@.len(),
                forall|j: int|
                    0 <= j < k ==> (#[trigger] self.configurations@[j].output_column@)
                        != self.output_name@,
                *self == (EnhancedGroupingDialog { error_message: None, ..*old(self) }),
        {
            if crate::text::str_eq(
                self.configurations[k].output_column.as_str(),
                self.output_name.as_str(),
            ) {
                self.error_message = Some(
                    String::from_str("Output column name already exists"),
                );
                return false;
            }
        }
        true
    }

    /// Clears the rule being edited.
    pub fn clear_current_config(&mut self)
        ensures
            *final(self) == (EnhancedGroupingDialog {
                selected_column: final(self).selected_column,
                value_input: final(self).value_input,
                output_name: final(self).output_name,
                error_message: None,
                ..*old(self)
            }),
            final(self).selected_column@.len() == 0,
            final(self).value_input@.len() == 0,
            final(self).output_name@.len() == 0,
    {
        self.selected_column = String::new();
        self.value_input = String::new();
        self.output_name = String::new();
        self.error_message = None;
    }

    /// Replaces the list of columns offered for selection.
    pub fn update_available_columns(&mut self, columns: Vec<String>)
        ensures
            *final(self) == (EnhancedGroupingDialog {
                available_columns: columns,
                ..*old(self)
            }),
    {
        self.available_columns = columns;
    }

    /// Replaces the list of tables offered for selection.
    pub fn update_available_tables(&mut self, tables: Vec<String>)
        ensures
            *final(self) == (EnhancedGroupingDialog { available_tables: tables, ..*old(self) }),
    {
        self.available_tables = tables;
    }

    /// Returns the dialog to its initial state.
    pub fn reset(&mut self)
        ensures
            !final(self).visible,
            final(self).selected_table is None,
            final(self).configurations@.len() == 0,
            final(self).error_message is None,
            final(self).reset_on_change,
    {
        *self = Self::new();
    }
}

// ---------------------------------------------------------------------------
// Basic transformation dialog
// ---------------------------------------------------------------------------
/// One queued delta transformation of the basic dialog.
#[derive(Debug, Clone)]
pub struct DeltaTransformation {
    pub selected_columns: Vec<String>,
    pub output_column_names: Vec<String>,
}

/// The state behind the basic transformation window.
#[derive(Debug, Clone)]
pub struct TransformationDialog {
    pub visible: bool,
    pub selected_table: Option<String>,
    pub transformations: Vec<DeltaTransformation>,
    pub available_tables: Vec<String>,
    pub available_columns: Vec<String>,
    pub error_message: Option<String>,
    pub success_message: Option<String>,
    pub selected_column: String,
    pub output_name: String,
}

impl TransformationDialog {
    /// The initial dialog state.
    pub fn new() -> (r: TransformationDialog)
        ensures
            !r.visible,
            r.selected_table is None,
            r.transformations@.len() == 0,
            r.available_tables@.len() == 0,
            r.available_columns@.len() == 0,
            r.error_message is None,
            r.success_message is None,
            r.selected_column@.len() == 0,
            r.output_name@.len() == 0,
    {
        TransformationDialog {
            visible: false,
            selected_table: None,
            transformations: Vec::new(),
            available_tables: Vec::new(),
            available_columns: Vec::new(),
            error_message: None,
            success_message: None,
            selected_column: String::new(),
            output_name: String::new(),
        }
    }

    /// Replaces the list of tables offered for selection.
    pub fn update_available_tables(&mut self, tables: Vec<String>)
        ensures
            *final(self) == (TransformationDialog { available_tables: tables, ..*old(self) }),
    {
        self.available_tables = tables;
    }

    /// Replaces the list of columns offered for delta transformations: the
    /// 64-bit numeric ones.
    pub fn update_available_columns(&mut self, columns: Vec<String>, types: Vec<PhysicalType>)
        requires
            columns@.len() == types@.len(),
        ensures
            final(self).available_columns@.map_values(|s: String| s@) == numeric_names_of(
                columns@,
                types@,
            ),
            *final(self) == (TransformationDialog {
                available_columns: final(self).available_columns,
                ..*old(self)
            }),
    {
        let n = columns.len();
        let mut numeric: Vec<String> = Vec::new();
        for i in 0..n
            invariant
                n == columns@.len(),
                n == types@.len(),
                numeric@.map_values(|s: String| s@) =~= numeric_names_of(
                    columns@.subrange(0, i as int),
                    types@.subrange(0, i as int),
                ),
        {
            proof {
                assert(columns@.subrange(0, i + 1).drop_last() =~= columns@.subrange(0, i as int));
                assert(types@.subrange(0, i + 1).drop_last() =~= types@.subrange(0, i as int));
                assert(columns@.subrange(0, i + 1).last() == columns@[i as int]);
                assert(types@.subrange(0, i + 1).last() == types@[i as int]);
            }
            let keep = match types[i] {
                PhysicalType::Int64 => true,
                PhysicalType::Float64 => true,
                _ => false,
            };
            if keep {
                numeric.push(columns[i].clone());
            }
            proof {
                assert(numeric@.map_values(|s: String| s@) =~= numeric_names_of(
                    columns@.subrange(0, i + 1),
                    types@.subrange(0, i + 1),
                ));
            }
        }
        proof {
            assert(columns@.subrange(0, n as int) =~= columns@);
            assert(types@.subrange(0, n as int) =~= types@);
        }
        self.available_columns = numeric;
    }

    /// Clears the queued transformations and the fields being edited.
    pub fn reset_transformation_state(&mut self)
        ensures
            final(self).transformations@.len() == 0,
            final(self).selected_column@.len() == 0,
            final(self).output_name@.len() == 0,
            final(self).error_message is None,
            final(self).success_message is None,
            *final(self) == (TransformationDialog {
                transformations: final(self).transformations,
                selected_column: final(self).selected_column,
                output_name: final(self).output_name,
                error_message: None,
                success_message: None,
                ..*old(self)
            }),
    {
        self.transformations = Vec::new();
        self.selected_column = String::new();
        self.output_name = String::new();
        self.error_message = None;
        self.success_message = None;
    }

    /// Clears the table choice and everything edited for it.
    pub fn reset(&mut self)
        ensures
            final(self).selected_table is None,
            final(self).transformations@.len() == 0,
            final(self).error_message is None,
            final(self).success_message is None,
    {
        self.selected_table = None;
        self.reset_transformation_state();
    }
}

// ---------------------------------------------------------------------------
// Time-based grouping dialog
// ---------------------------------------------------------------------------
/// The state behind the time-grouping window: the chosen table and column,
/// the binning strategy, and the user-facing messages.
#[derive(Debug, Clone)]
pub struct TimeBasedGroupingDialog {
    pub visible: bool,
    pub available_tables: Vec<String>,
    pub available_columns: Vec<String>,
    pub selected_table: String,
    pub selected_column: String,
    pub strategy: TimeBinStrategy,
    pub output_column_name: String,
    pub error_message: Option<String>,
    pub success_message: Option<String>,
    pub pending_apply: bool,
}

impl TimeBasedGroupingDialog {
    /// The initial dialog state: a ten-second fixed interval, the output
    /// column named `time_group`.
    pub fn new() -> (r: TimeBasedGroupingDialog)
        ensures
            !r.visible,
            r.available_tables@.len() == 0,
            r.available_columns@.len() == 0,
            r.selected_table@.len() == 0,
            r.selected_column@.len() == 0,
            r.strategy matches TimeBinStrategy::FixedInterval { interval_seconds, .. }
                && interval_seconds == 10,
            r.output_column_name@ == "time_group"@,
            r.error_message is None,
            r.success_message is None,
            !r.pending_apply,
    {
        TimeBasedGroupingDialog {
            visible: false,
            available_tables: Vec::new(),
            available_columns: Vec::new(),
            selected_table: String::new(),
            selected_column: String::new(),
            strategy: TimeBinStrategy::FixedInterval {
                interval_seconds: 10,
                interval_format: String::from_str("10"),
            },
            output_column_name: String::from_str("time_group"),
            error_message: None,
            success_message: None,
            pending_apply: false,
        }
    }

    /// Replaces the table list; the first table is preselected when none
    /// was chosen yet.
    pub fn update_available_tables(&mut self, tables: Vec<String>)
        ensures
            final(self).available_tables@ == tables@,
            old(self).selected_table@.len() == 0 && tables@.len() > 0
                ==> final(self).selected_table@ == tables@[0]@,
            old(self).selected_table@.len() > 0 ==> final(self).selected_table
                == old(self).selected_table,
    {
        let pick_first = self.selected_table.as_str().unicode_len() == 0 && tables.len() > 0;
        if pick_first {
            self.selected_table = tables[0].clone();
        }
        self.available_tables = tables;
    }

    /// Replaces the column list; the first column is preselected when none
    /// was chosen yet.
    pub fn update_available_columns(&mut self, columns: Vec<String>)
        ensures
            final(self).available_columns@ == columns@,
            old(self).selected_column@.len() == 0 && columns@.len() > 0
                ==> final(self).selected_column@ == columns@[0]@,
            old(self).selected_column@.len() > 0 ==> final(self).selected_column
                == old(self).selected_column,
    {
        let pick_first = self.selected_column.as_str().unicode_len() == 0 && columns.len() > 0;
        if pick_first {
            self.selected_column = columns[0].clone();
        }
        self.available_columns = columns;
    }

    /// Parses a duration text (`seconds`, `M:S` or `H:M:S`) as seconds.
    pub fn parse_time_format(&self, time_str: &str) -> (r: Option<u64>)
        ensures
            r == duration_chars(time_str@),
    {
        Self::parse_time_format_static(time_str)
    }

    /// Parses a duration text (`seconds`, `M:S` or `H:M:S`) as seconds.
    pub fn parse_time_format_static(time_str: &str) -> (r: Option<u64>)
        ensures
            r == duration_chars(time_str@),
    {
        crate::timestamp::parse_duration(time_str)
    }

    /// Validates the dialog's choices and runs the time grouping engine
    /// over the batch, recording a success or error message; the grouped
    /// batch and its output table name are returned on success.
    pub fn apply_grouping(&mut self, batch: Batch) -> (r: Option<(Batch, String)>)
        requires
            batch.wf(),
        ensures
            r is Some ==> final(self).error_message is None && final(self).success_message
                is Some && (r matches Some((b, name)) && b.wf() && name@
                == old(self).selected_table@ + "_grouped"@),
            r is None ==> final(self).success_message is None && final(self).error_message
                is Some,
    {
        proof {
            reveal_strlit("Please select a table");
            reveal_strlit("Please select a time column");
            reveal_strlit("Please enter an output column name");
            reveal_strlit("The interval is too large");
            reveal_strlit("Failed to apply grouping");
        }
        self.error_message = None;
        self.success_message = None;
        if self.selected_table.as_str().unicode_len() == 0 {
            self.error_message = Some(String::from_str("Please select a table"));
            return None;
        }
        if self.selected_column.as_str().unicode_len() == 0 {
            self.error_message = Some(String::from_str("Please select a time column"));
            return None;
        }
        if self.output_column_name.as_str().unicode_len() == 0 {
            self.error_message = Some(String::from_str("Please enter an output column name"));
            return None;
        }
        let in_range = match &self.strategy {
            TimeBinStrategy::FixedInterval { interval_seconds, .. } => *interval_seconds as u64
                <= 0x7FFF_FFFF_FFFF_FFFFu64,
            TimeBinStrategy::ThresholdBased { threshold_seconds, .. } => *threshold_seconds as u64
                <= 0x7FFF_FFFF_FFFF_FFFFu64,
            TimeBinStrategy::ManualIntervals { .. } => true,
        };
        if !in_range {
            self.error_message = Some(String::from_str("The interval is too large"));
            return None;
        }
        let config = TimeBinConfig {
            selected_table: self.selected_table.clone(),
            selected_column: self.selected_column.clone(),
            strategy: self.strategy.clone_strategy(),
            output_column_name: self.output_column_name.clone(),
            output_filename: None,
        };
        match TimeGroupingEngine::apply_grouping(batch, &config) {
            Ok((b, name)) => {
                proof {
                    reveal_strlit("Successfully applied time-based grouping");
                }
                self.success_message = Some(
                    String::from_str("Successfully applied time-based grouping"),
                );
                Some((b, name))
            },
            Err(_) => {
                self.error_message = Some(String::from_str("Failed to apply grouping"));
                None
            },
        }
    }
}

} // verus!
