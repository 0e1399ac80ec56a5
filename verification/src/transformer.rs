use vstd::prelude::*;
use vstd::string::StringExecFns;
use crate::column::{cell_chars, render_cell, Batch, Column, ColumnData};
use crate::compute::{cell_rat, cum_int_cell, cum_rat_cell, delta_int_at, delta_rat_at,
    int_cells_spec, frac_cells_spec, is_int_family, is_numeric, numeric_cells, pct_int_cell,
    pct_rat_cell, ratio_cell, rat_cells, NullHandling, NumericCells};
use crate::error::TransformError;
use crate::frac::{rat_of_int, Frac, Rational};
use crate::grouping::change_id_at;
use crate::intmath::floor_div_i64;
use crate::text::{is_null_token, parse_dec_chars, dec_fits, parse_frac, parse_i64,
    parse_i64_chars, str_is_null_token, str_trim, trim_chars, parse_u64};

verus! {

/// The transformations the basic transformation dialog offers.
#[derive(Debug, Clone, PartialEq, Eq, Structural)]
pub enum TransformationType {
    Delta,
    TimeBin,
    RowId,
    CumulativeSum,
    Percentage,
    Ratio,
    MovingAverage,
    ZScore,
}

/// A fully described transformation, as the dialogs assemble it.
#[derive(Debug, Clone)]
pub struct TransformationConfig {
    pub transformation_type: TransformationType,
    pub selected_columns: Vec<String>,
    pub output_column_names: Vec<String>,
    pub output_column_name: String,
    pub bin_size: Option<String>,
    pub time_column: Option<String>,
    pub grouping_columns: Option<Vec<String>>,
}

/// Applies the numeric derivations to batches, one appended column at a
/// time; the batch handed in is never mutated, a new one is returned.
pub struct DataTransformer;

// ---------------------------------------------------------------------------
// Shared scaffolding: looking a column up and appending the result
// ---------------------------------------------------------------------------
/// The integer-family cells of the column at `i`, seen as the computation
/// engines see them.
pub open spec fn col_ints(b: Batch, i: int) -> Seq<Option<i64>> {
    int_cells_spec(b.columns@[i].data)
}

/// The fractional cells of the column at `i`.
pub open spec fn col_rats(b: Batch, i: int) -> Seq<Option<Rational>> {
    rat_cells(frac_cells_spec(b.columns@[i].data))
}

/// The common shape of every derivation: the input batch kept intact, one
/// column appended under the requested name.
pub open spec fn appended(b: Batch, out: Batch, name: Seq<char>) -> bool {
    &&& out.wf()
    &&& out.columns@.len() == b.columns@.len() + 1
    &&& forall|j: int| 0 <= j < b.columns@.len() ==> #[trigger] out.columns@[j] == b.columns@[j]
    &&& out.columns@.last().name@ == name
    &&& !b.has_column(name)
}

/// The named column exists but is not one of the four numeric types.
pub open spec fn column_not_numeric(b: Batch, column: Seq<char>) -> bool {
    exists|i: int|
        0 <= i < b.columns@.len() && (#[trigger] b.columns@[i].name@) == column && !is_numeric(
            b.columns@[i].data,
        )
}

/// The conditioned error cases every single-column derivation shares: each
/// kind is tied to its cause, so an always-failing body cannot meet it.
#[verifier::opaque]
pub open spec fn unary_apply_err(
    b: Batch,
    column: Seq<char>,
    output: Seq<char>,
    e: TransformError,
    overflow_cause: bool,
) -> bool {
    ||| (e matches TransformError::ColumnNotFound(c) && c@ == column && !b.has_column(column))
    ||| (e is EmptyInput && b.num_rows_spec() == 0)
    ||| (e is UnsupportedType && column_not_numeric(b, column))
    ||| (e matches TransformError::DuplicateOutputName(c) && c@ == output && b.has_column(output))
    ||| (e is NumericOverflow && overflow_cause)
}

/// The delta column the derivation owes: the input kept intact and, for
/// the named numeric source, the family-preserving differences appended.
#[verifier::opaque]
pub open spec fn delta_applied(b: Batch, out: Batch, column: Seq<char>, output: Seq<char>) -> bool {
    &&& b.num_rows_spec() > 0
    &&& appended(b, out, output)
    &&& exists|i: int|
        0 <= i < b.columns@.len() && (#[trigger] b.columns@[i].name@) == column && is_numeric(
            b.columns@[i].data,
        ) && (if is_int_family(b.columns@[i].data) {
            out.columns@.last().data matches ColumnData::Int64(cells) && cells@.len()
                == b.num_rows_spec() && (forall|q: int|
                0 <= q < cells@.len() ==> #[trigger] cells@[q] == (match delta_int_at(
                    col_ints(b, i),
                    q,
                ) {
                    Some(d) => Some(d as i64),
                    None => None::<i64>,
                }))
        } else {
            out.columns@.last().data matches ColumnData::Float64(cells) && cells@.len()
                == b.num_rows_spec() && (forall|q: int|
                0 <= q < cells@.len() ==> #[trigger] cell_rat(cells@[q]) == delta_rat_at(
                    col_rats(b, i),
                    q,
                ))
        })
}

/// The delta at row `q` of the column at `i` leaves the machine range.
pub open spec fn delta_unfit_at(b: Batch, i: int, q: int) -> bool {
    if is_int_family(b.columns@[i].data) {
        0 <= q < col_ints(b, i).len() && !crate::compute::delta_int_fits(col_ints(b, i), q)
    } else {
        0 <= q < col_rats(b, i).len() && !crate::compute::delta_rat_fits(col_rats(b, i), q)
    }
}

/// When the delta of the named column leaves the machine range.
#[verifier::opaque]
pub open spec fn delta_overflow(b: Batch, column: Seq<char>) -> bool {
    exists|i: int, q: int|
        0 <= i < b.columns@.len() && (#[trigger] b.columns@[i].name@) == column && is_numeric(
            b.columns@[i].data,
        ) && #[trigger] delta_unfit_at(b, i, q)
}

/// The running-total column the derivation owes.
#[verifier::opaque]
pub open spec fn cumsum_applied(
    b: Batch,
    out: Batch,
    column: Seq<char>,
    output: Seq<char>,
    nh: NullHandling,
) -> bool {
    &&& b.num_rows_spec() > 0
    &&& appended(b, out, output)
    &&& exists|i: int|
        0 <= i < b.columns@.len() && (#[trigger] b.columns@[i].name@) == column && is_numeric(
            b.columns@[i].data,
        ) && (if is_int_family(b.columns@[i].data) {
            out.columns@.last().data matches ColumnData::Int64(cells) && cells@.len()
                == b.num_rows_spec() && (forall|q: int|
                0 <= q < cells@.len() ==> #[trigger] cells@[q] == (match cum_int_cell(
                    col_ints(b, i),
                    nh,
                    q,
                ) {
                    Some(d) => Some(d as i64),
                    None => None::<i64>,
                }))
        } else {
            out.columns@.last().data matches ColumnData::Float64(cells) && cells@.len()
                == b.num_rows_spec() && (forall|q: int|
                0 <= q < cells@.len() ==> #[trigger] cell_rat(cells@[q]) == cum_rat_cell(
                    col_rats(b, i),
                    nh,
                    q,
                ))
        })
}

/// When the running total of the named column leaves the machine range.
#[verifier::opaque]
pub open spec fn cumsum_overflow(b: Batch, column: Seq<char>) -> bool {
    exists|i: int|
        0 <= i < b.columns@.len() && (#[trigger] b.columns@[i].name@) == column && is_numeric(
            b.columns@[i].data,
        ) && (if is_int_family(b.columns@[i].data) {
            !crate::compute::cum_int_fits(col_ints(b, i), col_ints(b, i).len() as int)
        } else {
            !crate::compute::cum_rat_fits(col_rats(b, i), col_rats(b, i).len() as int)
        })
}

/// The percentage-of-total column the derivation owes.
#[verifier::opaque]
pub open spec fn percentage_applied(
    b: Batch,
    out: Batch,
    column: Seq<char>,
    output: Seq<char>,
) -> bool {
    &&& b.num_rows_spec() > 0
    &&& appended(b, out, output)
    &&& exists|i: int|
        0 <= i < b.columns@.len() && (#[trigger] b.columns@[i].name@) == column && is_numeric(
            b.columns@[i].data,
        ) && (out.columns@.last().data matches ColumnData::Float64(cells) && cells@.len()
            == b.num_rows_spec() && (forall|q: int|
            0 <= q < cells@.len() ==> #[trigger] cell_rat(cells@[q]) == (if is_int_family(
                b.columns@[i].data,
            ) {
                pct_int_cell(col_ints(b, i), q)
            } else {
                pct_rat_cell(col_rats(b, i), q)
            })))
}

/// When the percentages of the named column leave the machine range
/// (possible only for fractional sources; integer totals are exact).
#[verifier::opaque]
pub open spec fn percentage_overflow(b: Batch, column: Seq<char>) -> bool {
    exists|i: int|
        0 <= i < b.columns@.len() && (#[trigger] b.columns@[i].name@) == column && is_numeric(
            b.columns@[i].data,
        ) && !is_int_family(b.columns@[i].data) && (!crate::compute::cum_rat_fits(
            col_rats(b, i),
            col_rats(b, i).len() as int,
        ) || exists|q: int|
            0 <= q < col_rats(b, i).len() && !(#[trigger] crate::compute::pct_rat_fits(
                col_rats(b, i),
                q,
            )))
}

/// The ratio column the derivation owes.
#[verifier::opaque]
pub open spec fn ratio_applied(
    b: Batch,
    out: Batch,
    num: Seq<char>,
    den: Seq<char>,
    output: Seq<char>,
) -> bool {
    &&& b.num_rows_spec() > 0
    &&& appended(b, out, output)
    &&& exists|i: int, j: int|
        0 <= i < b.columns@.len() && 0 <= j < b.columns@.len() && (
        #[trigger] b.columns@[i].name@) == num && (#[trigger] b.columns@[j].name@) == den
            && is_numeric(b.columns@[i].data) && is_numeric(b.columns@[j].data) && (
        out.columns@.last().data matches ColumnData::Float64(cells) && cells@.len()
            == b.num_rows_spec() && (forall|q: int|
            0 <= q < cells@.len() ==> #[trigger] cell_rat(cells@[q]) == ratio_cell(
                num_rat_cells(b.columns@[i].data),
                num_rat_cells(b.columns@[j].data),
                q,
            )))
}

/// When some row's ratio leaves the machine range.
#[verifier::opaque]
pub open spec fn ratio_overflow(b: Batch, num: Seq<char>, den: Seq<char>) -> bool {
    exists|i: int, j: int|
        0 <= i < b.columns@.len() && 0 <= j < b.columns@.len() && (
        #[trigger] b.columns@[i].name@) == num && (#[trigger] b.columns@[j].name@) == den
            && is_numeric(b.columns@[i].data) && is_numeric(b.columns@[j].data) && (exists|q: int|
            0 <= q < b.num_rows_spec() && !(#[trigger] crate::compute::ratio_fits(
                num_rat_cells(b.columns@[i].data),
                num_rat_cells(b.columns@[j].data),
                q,
            )))
}

/// The moving-average column the derivation owes.
#[verifier::opaque]
pub open spec fn moving_average_applied(
    b: Batch,
    out: Batch,
    column: Seq<char>,
    output: Seq<char>,
    window: int,
    nh: NullHandling,
) -> bool {
    &&& b.num_rows_spec() > 0
    &&& window >= 1
    &&& appended(b, out, output)
    &&& exists|i: int|
        0 <= i < b.columns@.len() && (#[trigger] b.columns@[i].name@) == column && is_numeric(
            b.columns@[i].data,
        ) && (out.columns@.last().data matches ColumnData::Float64(cells) && cells@.len()
            == b.num_rows_spec() && (forall|q: int|
            0 <= q < cells@.len() ==> #[trigger] cell_rat(cells@[q]) == crate::compute::ma_cell(
                num_rat_cells(b.columns@[i].data),
                nh,
                window,
                q,
            )))
}

/// When some window of the named column leaves the machine range.
#[verifier::opaque]
pub open spec fn ma_overflow(b: Batch, column: Seq<char>, window: int, nh: NullHandling) -> bool {
    exists|i: int|
        0 <= i < b.columns@.len() && (#[trigger] b.columns@[i].name@) == column && is_numeric(
            b.columns@[i].data,
        ) && (exists|q: int|
            0 <= q < b.num_rows_spec() && !(#[trigger] crate::compute::ma_fits(
                num_rat_cells(b.columns@[i].data),
                nh,
                window,
                q,
            )))
}

/// The z-score column the derivation owes.
#[verifier::opaque]
pub open spec fn zscore_applied(b: Batch, out: Batch, column: Seq<char>, output: Seq<char>) -> bool {
    &&& b.num_rows_spec() > 0
    &&& appended(b, out, output)
    &&& exists|i: int|
        0 <= i < b.columns@.len() && (#[trigger] b.columns@[i].name@) == column && is_numeric(
            b.columns@[i].data,
        ) && (out.columns@.last().data matches ColumnData::Float64(cells) && cells@.len()
            == b.num_rows_spec() && (forall|q: int|
            0 <= q < cells@.len() ==> #[trigger] cell_rat(cells@[q]) == crate::compute::zscore_cell(
                num_rat_cells(b.columns@[i].data),
                q,
            )))
}

/// When the z-score computation of the named column leaves the machine range.
#[verifier::opaque]
pub open spec fn zscore_overflow(b: Batch, column: Seq<char>) -> bool {
    exists|i: int|
        0 <= i < b.columns@.len() && (#[trigger] b.columns@[i].name@) == column && is_numeric(
            b.columns@[i].data,
        ) && !crate::compute::zscore_fits(num_rat_cells(b.columns@[i].data))
}

impl DataTransformer {
    pub fn new() -> (r: DataTransformer) {
        DataTransformer
    }

    /// Appends a row-to-row difference column: null in the first row and
    /// across nulls, preserving the integer-versus-float family of the
    /// source column.
    pub fn apply_delta(&self, batch: Batch, column_name: &str, output_name: &str) -> (r: Result<
        Batch,
        TransformError,
    >)
        requires
            batch.wf(),
        ensures
            match r {
                Ok(out) => out.wf() && delta_applied(batch, out, column_name@, output_name@),
                Err(e) => unary_apply_err(
                    batch,
                    column_name@,
                    output_name@,
                    e,
                    delta_overflow(batch, column_name@),
                ),
            },
    {
        proof {
            reveal(delta_applied);
            reveal(unary_apply_err);
            reveal(delta_overflow);
        }
        let idx = match batch.column_index(column_name) {
            Some(i) => i,
            None => {
                return Err(TransformError::ColumnNotFound(column_name.to_owned()));
            },
        };
        proof {
            assert(batch.columns@[idx as int].len_spec() == batch.num_rows_spec());
        }
        let data = match numeric_cells(&batch.columns[idx].data) {
            Ok(NumericCells::Ints(cells)) => {
                match crate::compute::delta_ints(&cells) {
                    Ok(out) => ColumnData::Int64(out),
                    Err(e) => {
                        proof {
                            assert(batch.columns@[idx as int].name@ == column_name@);
                            if e is NumericOverflow {
                                let q = choose|q: int|
                                    0 <= q < cells@.len() && !crate::compute::delta_int_fits(
                                        cells@,
                                        q,
                                    );
                                assert(delta_unfit_at(batch, idx as int, q));
                            }
                        }
                        return Err(e);
                    },
                }
            },
            Ok(NumericCells::Fracs(cells)) => {
                match crate::compute::delta_fracs(&cells) {
                    Ok(out) => ColumnData::Float64(out),
                    Err(e) => {
                        proof {
                            assert(batch.columns@[idx as int].name@ == column_name@);
                            if e is NumericOverflow {
                                let q = choose|q: int|
                                    0 <= q < cells@.len() && !crate::compute::delta_rat_fits(
                                        rat_cells(cells@),
                                        q,
                                    );
                                assert(delta_unfit_at(batch, idx as int, q));
                            }
                        }
                        return Err(e);
                    },
                }
            },
            Err(e) => {
                proof {
                    assert(batch.columns@[idx as int].name@ == column_name@);
                }
                return Err(e);
            },
        };
        let col = Column { name: output_name.to_owned(), data };
        proof {
            assert(col.len_spec() == batch.num_rows_spec());
        }
        batch.with_column(col)
    }

    /// Appends a running-total column, preserving the numeric family; how
    /// nulls contribute is governed by the null handling.
    pub fn apply_cumulative_sum(
        &self,
        batch: Batch,
        column_name: &str,
        output_name: &str,
        nh: &NullHandling,
    ) -> (r: Result<Batch, TransformError>)
        requires
            batch.wf(),
        ensures
            match r {
                Ok(out) => out.wf() && cumsum_applied(batch, out, column_name@, output_name@, *nh),
                Err(e) => unary_apply_err(
                    batch,
                    column_name@,
                    output_name@,
                    e,
                    cumsum_overflow(batch, column_name@),
                ),
            },
    {
        proof {
            reveal(cumsum_applied);
            reveal(unary_apply_err);
            reveal(cumsum_overflow);
        }
        let idx = match batch.column_index(column_name) {
            Some(i) => i,
            None => {
                return Err(TransformError::ColumnNotFound(column_name.to_owned()));
            },
        };
        proof {
            assert(batch.columns@[idx as int].len_spec() == batch.num_rows_spec());
        }
        let data = match numeric_cells(&batch.columns[idx].data) {
            Ok(NumericCells::Ints(cells)) => {
                match crate::compute::cumulative_sum_ints(&cells, nh) {
                    Ok(out) => ColumnData::Int64(out),
                    Err(e) => {
                        proof {
                            assert(batch.columns@[idx as int].name@ == column_name@);
                        }
                        return Err(e);
                    },
                }
            },
            Ok(NumericCells::Fracs(cells)) => {
                match crate::compute::cumulative_sum_fracs(&cells, nh) {
                    Ok(out) => ColumnData::Float64(out),
                    Err(e) => {
                        proof {
                            assert(batch.columns@[idx as int].name@ == column_name@);
                        }
                        return Err(e);
                    },
                }
            },
            Err(e) => {
                proof {
                    assert(batch.columns@[idx as int].name@ == column_name@);
                }
                return Err(e);
            },
        };
        let col = Column { name: output_name.to_owned(), data };
        proof {
            assert(col.len_spec() == batch.num_rows_spec());
        }
        batch.with_column(col)
    }

    /// Appends a percentage-of-total column (always fractional).
    pub fn apply_percentage(&self, batch: Batch, column_name: &str, output_name: &str) -> (r:
        Result<Batch, TransformError>)
        requires
            batch.wf(),
        ensures
            match r {
                Ok(out) => out.wf() && percentage_applied(batch, out, column_name@, output_name@),
                Err(e) => unary_apply_err(
                    batch,
                    column_name@,
                    output_name@,
                    e,
                    percentage_overflow(batch, column_name@),
                ),
            },
    {
        proof {
            reveal(percentage_applied);
            reveal(unary_apply_err);
            reveal(percentage_overflow);
        }
        let idx = match batch.column_index(column_name) {
            Some(i) => i,
            None => {
                return Err(TransformError::ColumnNotFound(column_name.to_owned()));
            },
        };
        proof {
            assert(batch.columns@[idx as int].len_spec() == batch.num_rows_spec());
        }
        let data = match numeric_cells(&batch.columns[idx].data) {
            Ok(NumericCells::Ints(cells)) => {
                match crate::compute::percentage_ints(&cells) {
                    Ok(out) => ColumnData::Float64(out),
                    Err(e) => {
                        proof {
                            assert(batch.columns@[idx as int].name@ == column_name@);
                        }
                        return Err(e);
                    },
                }
            },
            Ok(NumericCells::Fracs(cells)) => {
                match crate::compute::percentage_fracs(&cells) {
                    Ok(out) => ColumnData::Float64(out),
                    Err(e) => {
                        proof {
                            assert(batch.columns@[idx as int].name@ == column_name@);
                            if e is NumericOverflow {
                                if !crate::compute::cum_rat_fits(
                                    rat_cells(cells@),
                                    cells@.len() as int,
                                ) {
                                } else {
                                    let q = choose|q: int|
                                        0 <= q < cells@.len()
                                            && !crate::compute::pct_rat_fits(
                                            rat_cells(cells@),
                                            q,
                                        );
                                    assert(0 <= q < col_rats(batch, idx as int).len()
                                        && !crate::compute::pct_rat_fits(
                                        col_rats(batch, idx as int),
                                        q,
                                    ));
                                }
                                assert(percentage_overflow(batch, column_name@));
                            }
                        }
                        return Err(e);
                    },
                }
            },
            Err(e) => {
                proof {
                    assert(batch.columns@[idx as int].name@ == column_name@);
                }
                return Err(e);
            },
        };
        let col = Column { name: output_name.to_owned(), data };
        proof {
            assert(col.len_spec() == batch.num_rows_spec());
        }
        batch.with_column(col)
    }

    /// Appends a per-row ratio column (always fractional); integer operands
    /// are promoted to fractions, a zero denominator yields null.
    pub fn apply_ratio(
        &self,
        batch: Batch,
        numerator: &str,
        denominator: &str,
        output_name: &str,
    ) -> (r: Result<Batch, TransformError>)
        requires
            batch.wf(),
        ensures
            match r {
                Ok(out) => out.wf() && ratio_applied(batch, out, numerator@, denominator@, output_name@),
                Err(e) => {
                    ||| (e matches TransformError::ColumnNotFound(c) && ((c@ == numerator@
                        && !batch.has_column(numerator@)) || (c@ == denominator@
                        && !batch.has_column(denominator@))))
                    ||| (e is EmptyInput && batch.num_rows_spec() == 0)
                    ||| (e is UnsupportedType && (column_not_numeric(batch, numerator@)
                        || column_not_numeric(batch, denominator@)))
                    ||| (e matches TransformError::DuplicateOutputName(c) && c@ == output_name@
                        && batch.has_column(output_name@))
                    ||| (e is NumericOverflow && ratio_overflow(batch, numerator@, denominator@))
                },
            },
    {
        proof {
            reveal(ratio_applied);
            reveal(ratio_overflow);
            reveal(unary_apply_err);
        }
        let num_idx = match batch.column_index(numerator) {
            Some(i) => i,
            None => {
                return Err(TransformError::ColumnNotFound(numerator.to_owned()));
            },
        };
        let den_idx = match batch.column_index(denominator) {
            Some(i) => i,
            None => {
                return Err(TransformError::ColumnNotFound(denominator.to_owned()));
            },
        };
        proof {
            assert(batch.columns@[num_idx as int].len_spec() == batch.num_rows_spec());
            assert(batch.columns@[den_idx as int].len_spec() == batch.num_rows_spec());
            assert(batch.columns@[num_idx as int].name@ == numerator@);
            assert(batch.columns@[den_idx as int].name@ == denominator@);
        }
        let a = match to_frac_cells(&batch.columns[num_idx].data) {
            Ok(c) => c,
            Err(e) => {
                return Err(e);
            },
        };
        let b = match to_frac_cells(&batch.columns[den_idx].data) {
            Ok(c) => c,
            Err(e) => {
                return Err(e);
            },
        };
        let cells = match crate::compute::ratio_fracs(&a, &b) {
            Ok(c) => c,
            Err(e) => {
                proof {
                    if e is NumericOverflow {
                        let q = choose|q: int|
                            0 <= q < a@.len() && !crate::compute::ratio_fits(
                                rat_cells(a@),
                                rat_cells(b@),
                                q,
                            );
                        assert(0 <= q < batch.num_rows_spec() && !crate::compute::ratio_fits(
                            num_rat_cells(batch.columns@[num_idx as int].data),
                            num_rat_cells(batch.columns@[den_idx as int].data),
                            q,
                        ));
                        assert(ratio_overflow(batch, numerator@, denominator@));
                    }
                }
                return Err(e);
            },
        };
        let col = Column { name: output_name.to_owned(), data: ColumnData::Float64(cells) };
        proof {
            assert(col.len_spec() == batch.num_rows_spec());
        }
        batch.with_column(col)
    }

    /// Appends a trailing moving-average column (always fractional).
    pub fn apply_moving_average(
        &self,
        batch: Batch,
        column_name: &str,
        output_name: &str,
        window_size: usize,
        nh: &NullHandling,
    ) -> (r: Result<Batch, TransformError>)
        requires
            batch.wf(),
        ensures
            match r {
                Ok(out) => out.wf() && moving_average_applied(
                    batch,
                    out,
                    column_name@,
                    output_name@,
                    window_size as int,
                    *nh,
                ),
                Err(e) => {
                    ||| (e is UnsupportedType && window_size == 0)
                    ||| (e is NumericOverflow && window_size > i64::MAX)
                    ||| unary_apply_err(
                        batch,
                        column_name@,
                        output_name@,
                        e,
                        ma_overflow(batch, column_name@, window_size as int, *nh),
                    )
                },
            },
    {
        proof {
            reveal(moving_average_applied);
            reveal(unary_apply_err);
            reveal(ma_overflow);
        }
        if window_size == 0 {
            return Err(TransformError::UnsupportedType);
        }
        if window_size as u64 > 0x7FFF_FFFF_FFFF_FFFFu64 {
            return Err(TransformError::NumericOverflow);
        }
        let idx = match batch.column_index(column_name) {
            Some(i) => i,
            None => {
                return Err(TransformError::ColumnNotFound(column_name.to_owned()));
            },
        };
        proof {
            assert(batch.columns@[idx as int].len_spec() == batch.num_rows_spec());
            assert(batch.columns@[idx as int].name@ == column_name@);
        }
        let cells = match to_frac_cells(&batch.columns[idx].data) {
            Ok(c) => c,
            Err(e) => {
                return Err(e);
            },
        };
        let out_cells = match crate::compute::moving_average_fracs(&cells, window_size, nh) {
            Ok(c) => c,
            Err(e) => {
                proof {
                    if e is NumericOverflow {
                        let q = choose|q: int|
                            0 <= q < cells@.len() && !crate::compute::ma_fits(
                                rat_cells(cells@),
                                *nh,
                                window_size as int,
                                q,
                            );
                        assert(0 <= q < batch.num_rows_spec() && !crate::compute::ma_fits(
                            num_rat_cells(batch.columns@[idx as int].data),
                            *nh,
                            window_size as int,
                            q,
                        ));
                        assert(ma_overflow(batch, column_name@, window_size as int, *nh));
                    }
                }
                return Err(e);
            },
        };
        let col = Column { name: output_name.to_owned(), data: ColumnData::Float64(out_cells) };
        proof {
            assert(col.len_spec() == batch.num_rows_spec());
        }
        batch.with_column(col)
    }

    /// Appends a z-score column (always fractional): each value's deviation
    /// from the population mean over the population standard deviation.
    pub fn apply_zscore(&self, batch: Batch, column_name: &str, output_name: &str) -> (r: Result<
        Batch,
        TransformError,
    >)
        requires
            batch.wf(),
        ensures
            match r {
                Ok(out) => out.wf() && zscore_applied(batch, out, column_name@, output_name@),
                Err(e) => unary_apply_err(
                    batch,
                    column_name@,
                    output_name@,
                    e,
                    zscore_overflow(batch, column_name@),
                ),
            },
    {
        proof {
            reveal(zscore_applied);
            reveal(unary_apply_err);
            reveal(zscore_overflow);
        }
        let idx = match batch.column_index(column_name) {
            Some(i) => i,
            None => {
                return Err(TransformError::ColumnNotFound(column_name.to_owned()));
            },
        };
        proof {
            assert(batch.columns@[idx as int].len_spec() == batch.num_rows_spec());
            assert(batch.columns@[idx as int].name@ == column_name@);
        }
        let cells = match to_frac_cells(&batch.columns[idx].data) {
            Ok(c) => c,
            Err(e) => {
                return Err(e);
            },
        };
        let out_cells = match crate::compute::zscore_fracs(&cells) {
            Ok(c) => c,
            Err(e) => {
                return Err(e);
            },
        };
        let col = Column { name: output_name.to_owned(), data: ColumnData::Float64(out_cells) };
        proof {
            assert(col.len_spec() == batch.num_rows_spec());
        }
        batch.with_column(col)
    }
}

// ---------------------------------------------------------------------------
// Time-bin quantizer, row ids and group ids
// ---------------------------------------------------------------------------
/// The quantized bin of a native timestamp cell: seconds since the epoch
/// divided by the bin width, floor semantics.
pub open spec fn time_bin_cell(data: ColumnData, bin: int, i: int) -> Option<i64> {
    match data {
        ColumnData::Timestamp(u, v) => match v@[i] {
            Some(t) => Some((((t as int) / u.scale_spec()) / bin) as i64),
            None => None,
        },
        _ => None,
    }
}

/// The stringification grouping keys use: `null` for a null cell, the
/// shared cell rendering otherwise.
pub open spec fn key_cell_chars(data: ColumnData, i: int) -> Seq<char> {
    if data.cell_is_null(i) {
        seq!['n', 'u', 'l', 'l']
    } else {
        cell_chars(data, i)
    }
}

/// The group key of a row: the key renderings of the grouping columns, in
/// order, each followed by a separator bar.
pub open spec fn group_key_chars(b: Batch, idxs: Seq<int>, row: int) -> Seq<char>
    decreases idxs.len(),
{
    if idxs.len() == 0 {
        Seq::empty()
    } else {
        group_key_chars(b, idxs.drop_last(), row) + key_cell_chars(
            b.columns@[idxs.last()].data,
            row,
        ) + seq!['|']
    }
}

/// The indices named by the grouping columns, and the ids those keys give
/// every row: one-based, advancing whenever the key changes.
pub open spec fn group_ids_ok(b: Batch, names: Seq<String>, idxs: Seq<int>, ids: Seq<
    Option<i64>,
>) -> bool {
    &&& idxs.len() == names.len()
    &&& forall|k: int|
        0 <= k < idxs.len() ==> 0 <= #[trigger] idxs[k] < b.columns@.len()
            && b.columns@[idxs[k]].name@ == names[k]@
    &&& ids.len() == b.num_rows_spec()
    &&& forall|row: int|
        0 <= row < ids.len() ==> ((#[trigger] ids[row]) matches Some(g) && g == 1 + change_id_at(
            Seq::new(b.num_rows_spec(), |q: int| group_key_chars(b, idxs, q)),
            false,
            row,
        ))
}

/// The named column exists but is not a native timestamp.
pub open spec fn column_not_timestamp(b: Batch, column: Seq<char>) -> bool {
    exists|i: int|
        0 <= i < b.columns@.len() && (#[trigger] b.columns@[i].name@) == column && !(
        b.columns@[i].data is Timestamp)
}

/// The time-bin column the derivation owes over the named timestamp column.
#[verifier::opaque]
pub open spec fn time_bin_applied(
    b: Batch,
    out: Batch,
    column: Seq<char>,
    bin: int,
    output: Seq<char>,
) -> bool {
    &&& bin >= 1
    &&& appended(b, out, output)
    &&& exists|i: int|
        0 <= i < b.columns@.len() && (#[trigger] b.columns@[i].name@) == column
            && b.columns@[i].data is Timestamp && (out.columns@.last().data matches
        ColumnData::Int64(cells) && cells@.len() == b.num_rows_spec() && (forall|q: int|
            0 <= q < cells@.len() ==> #[trigger] cells@[q] == time_bin_cell(
                b.columns@[i].data,
                bin,
                q,
            )))
}

/// The conditioned error cases of the time-bin derivation.
#[verifier::opaque]
pub open spec fn time_bin_err(
    b: Batch,
    column: Seq<char>,
    output: Seq<char>,
    bin: int,
    e: TransformError,
) -> bool {
    ||| (e matches TransformError::ColumnNotFound(c) && c@ == column && !b.has_column(column))
    ||| (e is UnsupportedType && (bin == 0 || column_not_timestamp(b, column)))
    ||| (e matches TransformError::DuplicateOutputName(c) && c@ == output && b.has_column(output))
    ||| (e is NumericOverflow && bin > i64::MAX)
}

/// The row-id column the derivation owes: sequential indices from zero.
#[verifier::opaque]
pub open spec fn row_id_applied(b: Batch, out: Batch, output: Seq<char>) -> bool {
    &&& appended(b, out, output)
    &&& (out.columns@.last().data matches ColumnData::Int64(cells) && cells@.len()
        == b.num_rows_spec() && (forall|q: int|
        0 <= q < cells@.len() ==> #[trigger] cells@[q] == Some(q as i64)))
}

/// The group-id column the derivation owes: one-based ids advancing when
/// the concatenated key of the grouping columns changes.
#[verifier::opaque]
pub open spec fn group_id_applied(b: Batch, out: Batch, names: Seq<String>, output: Seq<
    char,
>) -> bool {
    &&& b.num_rows_spec() > 0
    &&& appended(b, out, output)
    &&& (out.columns@.last().data matches ColumnData::Int64(cells) && exists|idxs: Seq<int>|
        #[trigger] group_ids_ok(b, names, idxs, cells@))
}

/// The conditioned error cases of the group-id derivation.
#[verifier::opaque]
pub open spec fn group_id_err(b: Batch, names: Seq<String>, output: Seq<char>, e: TransformError) -> bool {
    ||| (e matches TransformError::ColumnNotFound(c) && (exists|k: int|
        0 <= k < names.len() && c@ == (#[trigger] names[k])@ && !b.has_column(names[k]@)))
    ||| (e is EmptyInput && b.num_rows_spec() == 0)
    ||| (e matches TransformError::DuplicateOutputName(c) && c@ == output && b.has_column(output))
    ||| (e is NumericOverflow && b.num_rows_spec() > i64::MAX)
}

/// The row-id derivation with optional grouping: the row-id column, then
/// the one-based group-id column named after it.
pub open spec fn row_id_full_ok(
    b: Batch,
    out: Batch,
    output: Seq<char>,
    grouping: Option<Vec<String>>,
) -> bool {
    match grouping {
        None => row_id_applied(b, out, output),
        Some(cols) => exists|mid: Batch|
            #[trigger] row_id_applied(b, mid, output) && group_id_applied(
                mid,
                out,
                cols@,
                output + "_group"@,
            ),
    }
}

/// A chain of delta steps: each appends the matching output column.
pub open spec fn multi_delta_ok(
    b: Batch,
    out: Batch,
    cols: Seq<String>,
    outs: Seq<String>,
    chain: Seq<Batch>,
) -> bool {
    &&& cols.len() == outs.len()
    &&& chain.len() == cols.len() + 1
    &&& chain[0] == b
    &&& chain[chain.len() - 1] == out
    &&& forall|k: int|
        0 <= k < cols.len() ==> delta_applied(
            #[trigger] chain[k],
            chain[k + 1],
            cols[k]@,
            outs[k]@,
        )
}

/// Some chain of delta steps took `b` to `out`.
pub open spec fn multi_delta_result_ok(
    b: Batch,
    out: Batch,
    cols: Seq<String>,
    outs: Seq<String>,
) -> bool {
    exists|chain: Seq<Batch>| #[trigger] multi_delta_ok(b, out, cols, outs, chain)
}

/// A prefix of delta steps succeeded and step `k` failed with `e`'s cause.
pub open spec fn multi_delta_partial(
    b: Batch,
    cols: Seq<String>,
    outs: Seq<String>,
    e: TransformError,
    chain: Seq<Batch>,
    k: int,
) -> bool {
    &&& cols.len() == outs.len()
    &&& 0 <= k < cols.len()
    &&& chain.len() == k + 1
    &&& chain[0] == b
    &&& forall|j: int|
        0 <= j < k ==> delta_applied(#[trigger] chain[j], chain[j + 1], cols[j]@, outs[j]@)
    &&& unary_apply_err(chain[k], cols[k]@, outs[k]@, e, delta_overflow(chain[k], cols[k]@))
}

/// Some prefix of delta steps succeeded and the next failed with `e`'s
/// cause, or the column and name counts differ.
pub open spec fn multi_delta_result_err(
    b: Batch,
    cols: Seq<String>,
    outs: Seq<String>,
    e: TransformError,
) -> bool {
    ||| (e is UnsupportedType && cols.len() != outs.len())
    ||| exists|chain: Seq<Batch>, k: int| #[trigger] multi_delta_partial(b, cols, outs, e, chain, k)
}

impl DataTransformer {
    /// Renders one cell the way grouping keys see it: `null` for a null
    /// cell, the shared stringification otherwise.
    pub fn format_array_value(&self, data: &ColumnData, row_idx: usize) -> (r: String)
        requires
            data.wf(),
            row_idx < data.len_spec(),
        ensures
            r@ == key_cell_chars(*data, row_idx as int),
    {
        proof {
            reveal_strlit("null");
        }
        let is_null = match data {
            ColumnData::Int32(v) => v[row_idx].is_none(),
            ColumnData::Int64(v) => v[row_idx].is_none(),
            ColumnData::Float32(v) => v[row_idx].is_none(),
            ColumnData::Float64(v) => v[row_idx].is_none(),
            ColumnData::Boolean(v) => v[row_idx].is_none(),
            ColumnData::Utf8(v) => v[row_idx].is_none(),
            ColumnData::Date(v) => v[row_idx].is_none(),
            ColumnData::Timestamp(_, v) => v[row_idx].is_none(),
        };
        if is_null {
            let r = String::from_str("null");
            proof {
                assert(r@ =~= seq!['n', 'u', 'l', 'l']);
            }
            r
        } else {
            render_cell(data, row_idx)
        }
    }

    /// Appends a time-bin column over a native timestamp column: each cell
    /// is its epoch second count divided by the bin width.
    pub fn apply_time_bin(
        &self,
        batch: Batch,
        time_column: &str,
        bin_size_seconds: u64,
        output_name: &str,
    ) -> (r: Result<Batch, TransformError>)
        requires
            batch.wf(),
        ensures
            match r {
                Ok(out) => out.wf() && time_bin_applied(
                    batch,
                    out,
                    time_column@,
                    bin_size_seconds as int,
                    output_name@,
                ),
                Err(e) => time_bin_err(
                    batch,
                    time_column@,
                    output_name@,
                    bin_size_seconds as int,
                    e,
                ),
            },
    {
        proof {
            reveal(time_bin_applied);
            reveal(time_bin_err);
        }
        if bin_size_seconds == 0 {
            return Err(TransformError::UnsupportedType);
        }
        if bin_size_seconds > 0x7FFF_FFFF_FFFF_FFFFu64 {
            return Err(TransformError::NumericOverflow);
        }
        let idx = match batch.column_index(time_column) {
            Some(i) => i,
            None => {
                return Err(TransformError::ColumnNotFound(time_column.to_owned()));
            },
        };
        let cells: Vec<Option<i64>> = match &batch.columns[idx].data {
            ColumnData::Timestamp(u, v) => {
                let ghost src = batch.columns@[idx as int].data;
                let n = v.len();
                let mut out: Vec<Option<i64>> = Vec::new();
                for q in 0..n
                    invariant
                        src == ColumnData::Timestamp(*u, *v),
                        n == v@.len(),
                        out@.len() == q,
                        1 <= bin_size_seconds <= i64::MAX,
                        forall|j: int|
                            0 <= j < q ==> #[trigger] out@[j] == time_bin_cell(
                                src,
                                bin_size_seconds as int,
                                j,
                            ),
                {
                    match v[q] {
                        Some(t) => {
                            let secs = crate::timestamp::ticks_to_seconds(t, *u);
                            let b = floor_div_i64(secs, bin_size_seconds as i64);
                            out.push(Some(b));
                        },
                        None => {
                            out.push(None);
                        },
                    }
                }
                out
            },
            _ => {
                proof {
                    assert(batch.columns@[idx as int].name@ == time_column@);
                }
                return Err(TransformError::UnsupportedType);
            },
        };
        let col = Column { name: output_name.to_owned(), data: ColumnData::Int64(cells) };
        proof {
            assert(col.len_spec() == batch.num_rows_spec());
        }
        batch.with_column(col)
    }

    /// Appends a sequential row-id column (`0, 1, 2, ...`); when grouping
    /// columns are given, a one-based group-id column named after the
    /// row-id column with a `_group` suffix follows it.
    pub fn apply_row_id(
        &self,
        batch: Batch,
        output_name: &str,
        grouping_columns: Option<&Vec<String>>,
    ) -> (r: Result<Batch, TransformError>)
        requires
            batch.wf(),
        ensures
            match r {
                Ok(out) => out.wf() && row_id_full_ok(
                    batch,
                    out,
                    output_name@,
                    match grouping_columns {
                        Some(g) => Some(*g),
                        None => None,
                    },
                ),
                Err(e) => {
                    ||| (e matches TransformError::DuplicateOutputName(c) && ((c@ == output_name@
                        && batch.has_column(output_name@)) || c@ == output_name@ + "_group"@))
                    ||| (e is NumericOverflow && batch.num_rows_spec() > i64::MAX)
                    ||| (e matches TransformError::ColumnNotFound(c) && grouping_columns matches
                        Some(g) && (exists|k: int|
                        0 <= k < g@.len() && c@ == (#[trigger] g@[k])@ && !batch.has_column(
                            g@[k]@,
                        )))
                    ||| (e is EmptyInput && batch.num_rows_spec() == 0 && grouping_columns
                        is Some)
                },
            },
    {
        proof {
            reveal(row_id_applied);
            reveal(group_id_err);
            reveal(unary_apply_err);
        }
        let n = batch.num_rows();
        if n as u64 > 0x7FFF_FFFF_FFFF_FFFFu64 {
            return Err(TransformError::NumericOverflow);
        }
        let mut ids: Vec<Option<i64>> = Vec::new();
        for q in 0..n
            invariant
                n <= i64::MAX,
                ids@.len() == q,
                forall|j: int| 0 <= j < q ==> #[trigger] ids@[j] == Some(j as i64),
        {
            ids.push(Some(q as i64));
        }
        let col = Column { name: output_name.to_owned(), data: ColumnData::Int64(ids) };
        proof {
            assert(col.len_spec() == batch.num_rows_spec());
        }
        let with_ids = match batch.with_column(col) {
            Ok(b) => b,
            Err(e) => {
                return Err(e);
            },
        };
        match grouping_columns {
            Some(cols) => {
                let mut group_name = output_name.to_owned();
                group_name.append("_group");
                match self.apply_group_id(with_ids, cols, group_name.as_str()) {
                    Ok(out) => {
                        proof {
                            assert(row_id_applied(batch, with_ids, output_name@));
                        }
                        Ok(out)
                    },
                    Err(e) => {
                        proof {
                            if e is ColumnNotFound {
                                let cval = e->ColumnNotFound_0;
                                let k = choose|k: int|
                                    0 <= k < cols@.len() && cval@ == (#[trigger] cols@[k])@
                                        && !with_ids.has_column(cols@[k]@);
                                assert(!batch.has_column(cols@[k]@)) by {
                                    if batch.has_column(cols@[k]@) {
                                        let i = choose|i: int|
                                            0 <= i < batch.columns@.len() && (
                                            #[trigger] batch.columns@[i].name@) == cols@[k]@;
                                        assert(with_ids.columns@[i] == batch.columns@[i]);
                                    }
                                }
                            }
                        }
                        Err(e)
                    },
                }
            },
            None => Ok(with_ids),
        }
    }

    /// Appends a one-based group-id column: the id advances whenever the
    /// concatenated key of the grouping columns changes between rows.
    pub fn apply_group_id(&self, batch: Batch, grouping_columns: &Vec<String>, output_name: &str)
        -> (r: Result<Batch, TransformError>)
        requires
            batch.wf(),
        ensures
            match r {
                Ok(out) => out.wf() && group_id_applied(batch, out, grouping_columns@, output_name@),
                Err(e) => group_id_err(batch, grouping_columns@, output_name@, e),
            },
    {
        proof {
            reveal(group_id_applied);
            reveal(group_id_err);
        }
        let m = grouping_columns.len();
        let mut idxs: Vec<usize> = Vec::new();
        for k in 0..m
            invariant
                m == grouping_columns@.len(),
                idxs@.len() == k,
                forall|j: int|
                    0 <= j < k ==> 0 <= #[trigger] idxs@[j] < batch.columns@.len()
                        && batch.columns@[idxs@[j] as int].name@ == grouping_columns@[j]@,
        {
            match batch.column_index(grouping_columns[k].as_str()) {
                Some(i) => {
                    idxs.push(i);
                },
                None => {
                    proof {
                        reveal(group_id_err);
                    }
                    return Err(TransformError::ColumnNotFound(grouping_columns[k].clone()));
                },
            }
        }
        let ghost gidxs = idxs@.map_values(|u: usize| u as int);
        let n = batch.num_rows();
        if n == 0 {
            return Err(TransformError::EmptyInput);
        }
        // Build the key of every row.
        let mut keys: Vec<String> = Vec::new();
        for row in 0..n
            invariant
                batch.wf(),
                n == batch.num_rows_spec(),
                m == grouping_columns@.len(),
                idxs@.len() == m,
                gidxs == idxs@.map_values(|u: usize| u as int),
                forall|j: int|
                    0 <= j < m ==> 0 <= #[trigger] idxs@[j] < batch.columns@.len(),
                keys@.len() == row,
                forall|j: int|
                    0 <= j < row ==> (#[trigger] keys@[j])@ == group_key_chars(batch, gidxs, j),
        {
            let mut key = String::new();
            let ghost whole = gidxs;
            for k in 0..m
                invariant
                    batch.wf(),
                    n == batch.num_rows_spec(),
                    row < n,
                    m == grouping_columns@.len(),
                    idxs@.len() == m,
                    gidxs == idxs@.map_values(|u: usize| u as int),
                    forall|j: int|
                        0 <= j < m ==> 0 <= #[trigger] idxs@[j] < batch.columns@.len(),
                    key@ == group_key_chars(batch, gidxs.subrange(0, k as int), row as int),
            {
                proof {
                    reveal_strlit("|");
                    assert(gidxs.subrange(0, k + 1).drop_last() =~= gidxs.subrange(0, k as int));
                    assert(gidxs.subrange(0, k + 1).last() == gidxs[k as int]);
                    assert(batch.columns@[idxs@[k as int] as int].wf());
                    assert(batch.columns@[idxs@[k as int] as int].len_spec()
                        == batch.num_rows_spec());
                }
                let part = self.format_array_value(&batch.columns[idxs[k]].data, row);
                key.append(part.as_str());
                key.append("|");
            }
            proof {
                assert(gidxs.subrange(0, m as int) =~= gidxs);
            }
            keys.push(key);
        }
        let raw_ids = match crate::grouping::value_change_ids(&keys, false) {
            Ok(ids) => ids,
            Err(e) => {
                return Err(e);
            },
        };
        let kn = raw_ids.len();
        let mut cells: Vec<Option<i64>> = Vec::new();
        let ghost keyseq = Seq::new(batch.num_rows_spec(), |q: int| group_key_chars(batch, gidxs, q));
        proof {
            assert(keys@.map_values(|s: String| s@) =~= keyseq);
        }
        for q in 0..kn
            invariant
                kn == raw_ids@.len(),
                kn == keyseq.len(),
                kn == batch.num_rows_spec(),
                cells@.len() == q,
                forall|j: int|
                    0 <= j < kn ==> #[trigger] raw_ids@[j] == change_id_at(keyseq, false, j),
                forall|j: int|
                    0 <= j < q ==> ((#[trigger] cells@[j]) matches Some(g) && g == 1
                        + change_id_at(keyseq, false, j)),
        {
            let g = match raw_ids[q].checked_add(1) {
                Some(g) => g,
                None => {
                    proof {
                        reveal(group_id_err);
                        crate::grouping::lemma_change_id_bound(keyseq, false, q as int);
                    }
                    return Err(TransformError::NumericOverflow);
                },
            };
            cells.push(Some(g));
        }
        proof {
            assert(group_ids_ok(batch, grouping_columns@, gidxs, cells@));
        }
        let col = Column { name: output_name.to_owned(), data: ColumnData::Int64(cells) };
        proof {
            assert(col.len_spec() == batch.num_rows_spec());
        }
        batch.with_column(col)
    }

    /// Appends one delta column per selected column, with matching output
    /// names.
    #[verifier::rlimit(60)]
    pub fn apply_delta_multiple_custom(
        &self,
        batch: Batch,
        columns: &Vec<String>,
        output_names: &Vec<String>,
    ) -> (r: Result<Batch, TransformError>)
        requires
            batch.wf(),
        ensures
            match r {
                Ok(out) => out.wf() && multi_delta_result_ok(batch, out, columns@, output_names@),
                Err(e) => multi_delta_result_err(batch, columns@, output_names@, e),
            },
    {
        let m = columns.len();
        if m != output_names.len() {
            return Err(TransformError::UnsupportedType);
        }
        let mut current = batch;
        let ghost orig = current;
        let ghost mut chain: Seq<Batch> = seq![orig];
        for k in 0..m
            invariant
                m == columns@.len(),
                m == output_names@.len(),
                current.wf(),
                chain.len() == k + 1,
                chain[0] == batch,
                chain[k as int] == current,
                forall|j: int|
                    0 <= j < k ==> delta_applied(
                        #[trigger] chain[j],
                        chain[j + 1],
                        columns@[j]@,
                        output_names@[j]@,
                    ),
        {
            current = match self.apply_delta(
                current,
                columns[k].as_str(),
                output_names[k].as_str(),
            ) {
                Ok(b) => b,
                Err(e) => {
                    proof {
                        assert(multi_delta_partial(
                            batch,
                            columns@,
                            output_names@,
                            e,
                            chain,
                            k as int,
                        ));
                    }
                    return Err(e);
                },
            };
            proof {
                chain = chain.push(current);
            }
        }
        proof {
            assert(multi_delta_ok(batch, current, columns@, output_names@, chain));
        }
        Ok(current)
    }

    /// The names of the 64-bit numeric columns, in schema order.
    pub fn get_numeric_columns(&self, batch: &Batch) -> (r: Vec<String>)
        ensures
            r@.map_values(|s: String| s@) == numeric_col_names(batch.columns@),
    {
        let n = batch.columns.len();
        let mut out: Vec<String> = Vec::new();
        for i in 0..n
            invariant
                n == batch.columns@.len(),
                out@.map_values(|s: String| s@) =~= numeric_col_names(
                    batch.columns@.subrange(0, i as int),
                ),
        {
            proof {
                assert(batch.columns@.subrange(0, i + 1).drop_last() =~= batch.columns@.subrange(
                    0,
                    i as int,
                ));
                assert(batch.columns@.subrange(0, i + 1).last() == batch.columns@[i as int]);
            }
            let keep = match &batch.columns[i].data {
                ColumnData::Int64(_) => true,
                ColumnData::Float64(_) => true,
                _ => false,
            };
            if keep {
                out.push(batch.columns[i].name.clone());
            }
            proof {
                assert(out@.map_values(|s: String| s@) =~= numeric_col_names(
                    batch.columns@.subrange(0, i + 1),
                ));
            }
        }
        proof {
            assert(batch.columns@.subrange(0, n as int) =~= batch.columns@);
        }
        out
    }

    /// The names of the native timestamp columns, in schema order.
    pub fn get_timestamp_columns(&self, batch: &Batch) -> (r: Vec<String>)
        ensures
            r@.map_values(|s: String| s@) == timestamp_col_names(batch.columns@),
    {
        let n = batch.columns.len();
        let mut out: Vec<String> = Vec::new();
        for i in 0..n
            invariant
                n == batch.columns@.len(),
                out@.map_values(|s: String| s@) =~= timestamp_col_names(
                    batch.columns@.subrange(0, i as int),
                ),
        {
            proof {
                assert(batch.columns@.subrange(0, i + 1).drop_last() =~= batch.columns@.subrange(
                    0,
                    i as int,
                ));
                assert(batch.columns@.subrange(0, i + 1).last() == batch.columns@[i as int]);
            }
            let keep = match &batch.columns[i].data {
                ColumnData::Timestamp(_, _) => true,
                _ => false,
            };
            if keep {
                out.push(batch.columns[i].name.clone());
            }
            proof {
                assert(out@.map_values(|s: String| s@) =~= timestamp_col_names(
                    batch.columns@.subrange(0, i + 1),
                ));
            }
        }
        proof {
            assert(batch.columns@.subrange(0, n as int) =~= batch.columns@);
        }
        out
    }
}

/// The names of the 64-bit numeric columns, in schema order.
pub open spec fn numeric_col_names(cols: Seq<Column>) -> Seq<Seq<char>>
    decreases cols.len(),
{
    if cols.len() == 0 {
        Seq::empty()
    } else {
        let rest = numeric_col_names(cols.drop_last());
        if cols.last().data is Int64 || cols.last().data is Float64 {
            rest.push(cols.last().name@)
        } else {
            rest
        }
    }
}

/// The names of the native timestamp columns, in schema order.
pub open spec fn timestamp_col_names(cols: Seq<Column>) -> Seq<Seq<char>>
    decreases cols.len(),
{
    if cols.len() == 0 {
        Seq::empty()
    } else {
        let rest = timestamp_col_names(cols.drop_last());
        if cols.last().data is Timestamp {
            rest.push(cols.last().name@)
        } else {
            rest
        }
    }
}

// ---------------------------------------------------------------------------
// Converting textual rows to a typed batch
// ---------------------------------------------------------------------------
/// Whether a textual cell counts as null: blank once trimmed, or the word
/// `null` in any case.
pub open spec fn is_null_cell(s: Seq<char>) -> bool {
    trim_chars(s).len() == 0 || is_null_token(trim_chars(s))
}

/// Every cell null or a signed integer literal.
pub open spec fn all_int_cells(col: Seq<Seq<char>>) -> bool {
    forall|i: int|
        0 <= i < col.len() ==> is_null_cell(#[trigger] col[i]) || parse_i64_chars(
            trim_chars(col[i]),
        ) is Some
}

/// Every cell null or a decimal literal within the engine's bounds.
pub open spec fn all_dec_cells(col: Seq<Seq<char>>) -> bool {
    forall|i: int|
        0 <= i < col.len() ==> is_null_cell(#[trigger] col[i]) || (parse_dec_chars(
            trim_chars(col[i]),
        ) is Some && dec_fits(trim_chars(col[i])))
}

/// What column the type detection builds from a textual column: integers
/// when every cell reads as one, else decimals, else the raw text.
pub open spec fn detected_ok(col: Seq<Seq<char>>, data: ColumnData) -> bool {
    if all_int_cells(col) {
        data matches ColumnData::Int64(cells) && cells@.len() == col.len() && (forall|i: int|
            0 <= i < col.len() ==> #[trigger] cells@[i] == (if is_null_cell(col[i]) {
                None
            } else {
                parse_i64_chars(trim_chars(col[i]))
            }))
    } else if all_dec_cells(col) {
        data matches ColumnData::Float64(cells) && cells@.len() == col.len() && (forall|i: int|
            0 <= i < col.len() ==> #[trigger] cell_rat(cells@[i]) == (if is_null_cell(col[i]) {
                None
            } else {
                parse_dec_chars(trim_chars(col[i]))
            }))
    } else {
        data matches ColumnData::Utf8(cells) && cells@.len() == col.len() && (forall|i: int|
            0 <= i < col.len() ==> ((#[trigger] cells@[i]) matches Some(s) && s@ == col[i]))
    }
}

/// The text of cell `(i, j)` of a row set, a short row padded with blanks.
pub open spec fn row_cell_chars(rows: Seq<Vec<String>>, i: int, j: int) -> Seq<char> {
    if j < rows[i]@.len() {
        rows[i]@[j]@
    } else {
        Seq::empty()
    }
}

/// One textual column of a row set.
pub open spec fn row_col_chars(rows: Seq<Vec<String>>, j: int) -> Seq<Seq<char>> {
    Seq::new(rows.len(), |i: int| row_cell_chars(rows, i, j))
}

/// Detects the type of a textual column and converts it: all-integer
/// columns become 64-bit integers, all-decimal columns become fractional,
/// anything else stays text (with blank or `null` cells as nulls for the
/// numeric cases).
pub fn detect_and_convert_column(column_data: &Vec<String>) -> (r: ColumnData)
    ensures
        detected_ok(column_data@.map_values(|s: String| s@), r),
        r.wf(),
        r.len_spec() == column_data@.len(),
{
    let ghost col = column_data@.map_values(|s: String| s@);
    let n = column_data.len();
    // First pass: integers.
    let mut int_cells: Vec<Option<i64>> = Vec::new();
    let mut ints_ok = true;
    for i in 0..n
        invariant
            n == column_data@.len(),
            col == column_data@.map_values(|s: String| s@),
            ints_ok ==> int_cells@.len() == i,
            ints_ok ==> forall|j: int|
                0 <= j < i ==> #[trigger] int_cells@[j] == (if is_null_cell(col[j]) {
                    None
                } else {
                    parse_i64_chars(trim_chars(col[j]))
                }),
            ints_ok ==> forall|j: int|
                0 <= j < i ==> is_null_cell(#[trigger] col[j]) || parse_i64_chars(
                    trim_chars(col[j]),
                ) is Some,
            !ints_ok ==> !all_int_cells(col),
    {
        if ints_ok {
            let t = str_trim(column_data[i].as_str());
            if t.as_str().unicode_len() == 0 || str_is_null_token(t.as_str()) {
                int_cells.push(None);
            } else {
                match parse_i64(t.as_str()) {
                    Some(v) => {
                        int_cells.push(Some(v));
                    },
                    None => {
                        proof {
                            assert(!is_null_cell(col[i as int]) && parse_i64_chars(
                                trim_chars(col[i as int]),
                            ) is None);
                        }
                        ints_ok = false;
                    },
                }
            }
        }
    }
    if ints_ok {
        return ColumnData::Int64(int_cells);
    }
    // Second pass: decimals.
    let mut dec_cells: Vec<Option<Frac>> = Vec::new();
    let mut decs_ok = true;
    for i in 0..n
        invariant
            n == column_data@.len(),
            col == column_data@.map_values(|s: String| s@),
            !all_int_cells(col),
            decs_ok ==> dec_cells@.len() == i,
            decs_ok ==> forall|j: int|
                0 <= j < i ==> #[trigger] cell_rat(dec_cells@[j]) == (if is_null_cell(col[j]) {
                    None
                } else {
                    parse_dec_chars(trim_chars(col[j]))
                }),
            decs_ok ==> forall|j: int|
                0 <= j < i ==> crate::column::frac_cell_ok(#[trigger] dec_cells@[j]),
            decs_ok ==> forall|j: int|
                0 <= j < i ==> is_null_cell(#[trigger] col[j]) || (parse_dec_chars(
                    trim_chars(col[j]),
                ) is Some && dec_fits(trim_chars(col[j]))),
            !decs_ok ==> !all_dec_cells(col),
    {
        if decs_ok {
            let t = str_trim(column_data[i].as_str());
            if t.as_str().unicode_len() == 0 || str_is_null_token(t.as_str()) {
                dec_cells.push(None);
            } else {
                match parse_frac(t.as_str()) {
                    Some(f) => {
                        dec_cells.push(Some(f));
                    },
                    None => {
                        proof {
                            assert(!is_null_cell(col[i as int]));
                        }
                        decs_ok = false;
                    },
                }
            }
        }
    }
    if decs_ok {
        return ColumnData::Float64(dec_cells);
    }
    // Fall back to text.
    let mut text_cells: Vec<Option<String>> = Vec::new();
    for i in 0..n
        invariant
            n == column_data@.len(),
            col == column_data@.map_values(|s: String| s@),
            text_cells@.len() == i,
            forall|j: int|
                0 <= j < i ==> ((#[trigger] text_cells@[j]) matches Some(s) && s@ == col[j]),
    {
        text_cells.push(Some(column_data[i].clone()));
    }
    ColumnData::Utf8(text_cells)
}

/// The first chosen output name of a delta step, falling back to the
/// single-column name.
pub open spec fn delta_out_name(t: SingleTransformation) -> Seq<char> {
    if t.output_column_names@.len() > 0 {
        t.output_column_names@[0]@
    } else {
        t.output_column_name@
    }
}

/// What one step of a transformation request owes.
pub open spec fn transformation_step_ok(pre: Batch, post: Batch, t: SingleTransformation) -> bool {
    match t.transformation_type {
        TransformationType::Delta => if t.selected_columns@.len() == 1 {
            delta_applied(pre, post, t.selected_columns@[0]@, delta_out_name(t))
        } else {
            t.selected_columns@.len() > 1 && multi_delta_result_ok(
                pre,
                post,
                t.selected_columns@,
                t.output_column_names@,
            )
        },
        TransformationType::TimeBin => t.time_column matches Some(c) && (
        crate::text::parse_u64_chars(t.bin_size@) matches Some(bin) && time_bin_applied(
            pre,
            post,
            c@,
            bin as int,
            t.output_column_name@,
        )),
        TransformationType::RowId => row_id_full_ok(
            pre,
            post,
            t.output_column_name@,
            t.grouping_columns,
        ),
        _ => false,
    }
}

/// The conditioned causes one step of a request may fail with.
pub open spec fn transformation_step_err(pre: Batch, t: SingleTransformation, e: TransformError) -> bool {
    match t.transformation_type {
        TransformationType::Delta => {
            ||| (e matches TransformError::ColumnNotFound(c) && c@.len() == 0
                && t.selected_columns@.len() == 0)
            ||| (t.selected_columns@.len() == 1 && unary_apply_err(
                pre,
                t.selected_columns@[0]@,
                delta_out_name(t),
                e,
                delta_overflow(pre, t.selected_columns@[0]@),
            ))
            ||| (t.selected_columns@.len() > 1 && multi_delta_result_err(
                pre,
                t.selected_columns@,
                t.output_column_names@,
                e,
            ))
        },
        TransformationType::TimeBin => {
            ||| (e matches TransformError::ColumnNotFound(c) && c@.len() == 0 && t.time_column
                is None)
            ||| (t.time_column matches Some(tc) && ((e matches TransformError::ParseFailure {
                value,
                ..
            } && value@ == t.bin_size@ && crate::text::parse_u64_chars(t.bin_size@) is None) || (
            crate::text::parse_u64_chars(t.bin_size@) matches Some(bin) && time_bin_err(
                pre,
                tc@,
                t.output_column_name@,
                bin as int,
                e,
            ))))
        },
        TransformationType::RowId => {
            ||| (e matches TransformError::DuplicateOutputName(c) && ((c@
                == t.output_column_name@ && pre.has_column(t.output_column_name@)) || c@
                == t.output_column_name@ + "_group"@))
            ||| (e is NumericOverflow && pre.num_rows_spec() > i64::MAX)
            ||| (e matches TransformError::ColumnNotFound(c) && t.grouping_columns matches Some(
                g,
            ) && (exists|k: int|
                0 <= k < g@.len() && c@ == (#[trigger] g@[k])@ && !pre.has_column(g@[k]@)))
            ||| (e is EmptyInput && pre.num_rows_spec() == 0 && t.grouping_columns is Some)
        },
        _ => e is UnsupportedType,
    }
}

/// A chain of transformation steps from `first` to `last`.
pub open spec fn transformation_fold_ok(
    first: Batch,
    last: Batch,
    steps: Seq<SingleTransformation>,
    chain: Seq<Batch>,
) -> bool {
    &&& chain.len() == steps.len() + 1
    &&& chain[0] == first
    &&& chain[chain.len() - 1] == last
    &&& forall|k: int|
        0 <= k < steps.len() ==> transformation_step_ok(#[trigger] chain[k], chain[k + 1], steps[k])
}

/// Some chain of transformation steps took `first` to `last`.
pub open spec fn transformation_result_ok(
    first: Batch,
    last: Batch,
    steps: Seq<SingleTransformation>,
) -> bool {
    exists|chain: Seq<Batch>| #[trigger] transformation_fold_ok(first, last, steps, chain)
}

/// A prefix of steps succeeded and step `k` failed with `e`'s cause.
pub open spec fn transformation_partial(
    first: Batch,
    steps: Seq<SingleTransformation>,
    e: TransformError,
    chain: Seq<Batch>,
    k: int,
) -> bool {
    &&& 0 <= k < steps.len()
    &&& chain.len() == k + 1
    &&& chain[0] == first
    &&& forall|j: int|
        0 <= j < k ==> transformation_step_ok(#[trigger] chain[j], chain[j + 1], steps[j])
    &&& transformation_step_err(chain[k], steps[k], e)
}

/// Some prefix of steps succeeded and the next failed with `e`'s cause.
pub open spec fn transformation_result_err(
    first: Batch,
    steps: Seq<SingleTransformation>,
    e: TransformError,
) -> bool {
    exists|chain: Seq<Batch>, k: int| #[trigger] transformation_partial(first, steps, e, chain, k)
}

/// The typed batch the row conversion owes: one detected column per name,
/// every row padded to the column count.
pub open spec fn converted_ok(rows: Seq<Vec<String>>, names: Seq<String>, b: Batch) -> bool {
    &&& rows.len() > 0
    &&& names.len() > 0
    &&& b.wf()
    &&& b.columns@.len() == names.len()
    &&& b.num_rows_spec() == rows.len()
    &&& forall|j: int| 0 <= j < b.columns@.len() ==> (#[trigger] b.columns@[j].name@) == names[j]@
    &&& forall|j: int|
        0 <= j < b.columns@.len() ==> detected_ok(
            row_col_chars(rows, j),
            (#[trigger] b.columns@[j]).data,
        )
}

/// One request of the basic transformation dialog: a table and the
/// transformations to fold over it.
#[derive(Debug)]
pub struct TransformationRequest {
    pub table_name: String,
    pub transformations: Vec<SingleTransformation>,
}

/// One step of a transformation request.
#[derive(Debug)]
pub struct SingleTransformation {
    pub transformation_type: TransformationType,
    pub selected_columns: Vec<String>,
    pub output_column_names: Vec<String>,
    pub output_column_name: String,
    pub bin_size: String,
    pub time_column: Option<String>,
    pub grouping_columns: Option<Vec<String>>,
}

/// Folds a transformation request over textual rows: the rows are typed
/// into a batch, the steps applied in order, and the batch returned with
/// the derived output name.
pub struct TransformationManager {
    pub transformer: DataTransformer,
}

impl TransformationManager {
    pub fn new() -> (r: TransformationManager) {
        TransformationManager { transformer: DataTransformer::new() }
    }

    /// Types textual rows into a batch: one detected column per name, every
    /// row padded to the column count.
    pub fn convert_rows_to_batch(&self, rows: &Vec<Vec<String>>, column_names: &Vec<String>) -> (r:
        Result<Batch, TransformError>)
        ensures
            match r {
                Ok(b) => converted_ok(rows@, column_names@, b),
                Err(e) => {
                    ||| (e is EmptyInput && (rows@.len() == 0 || column_names@.len() == 0))
                    ||| (e matches TransformError::DuplicateOutputName(c) && (exists|
                        x: int,
                        y: int,
                    |
                        0 <= x < y < column_names@.len() && (#[trigger] column_names@[x])@ == (
                        #[trigger] column_names@[y])@ && c@ == column_names@[y]@))
                },
            },
    {
        let nrows = rows.len();
        let ncols = column_names.len();
        if nrows == 0 || ncols == 0 {
            return Err(TransformError::EmptyInput);
        }
        let mut batch = Batch::new();
        for j in 0..ncols
            invariant
                nrows == rows@.len(),
                nrows > 0,
                ncols == column_names@.len(),
                batch.wf(),
                batch.columns@.len() == j,
                j > 0 ==> batch.num_rows_spec() == nrows,
                forall|k: int|
                    0 <= k < j ==> (#[trigger] batch.columns@[k].name@) == column_names@[k]@,
                forall|k: int|
                    0 <= k < j ==> detected_ok(
                        row_col_chars(rows@, k),
                        #[trigger] batch.columns@[k].data,
                    ),
        {
            let mut column_data: Vec<String> = Vec::new();
            for i in 0..nrows
                invariant
                    nrows == rows@.len(),
                    j < ncols,
                    column_data@.len() == i,
                    forall|q: int|
                        0 <= q < i ==> (#[trigger] column_data@[q])@ == row_cell_chars(
                            rows@,
                            q,
                            j as int,
                        ),
            {
                if j < rows[i].len() {
                    column_data.push(rows[i][j].clone());
                } else {
                    column_data.push(String::new());
                }
            }
            let data = detect_and_convert_column(&column_data);
            proof {
                assert(column_data@.map_values(|s: String| s@) =~= row_col_chars(
                    rows@,
                    j as int,
                ));
            }
            let col = Column { name: column_names[j].clone(), data };
            batch = match batch.with_column(col) {
                Ok(b) => b,
                Err(e) => {
                    match e {
                        TransformError::DuplicateOutputName(name) => {
                            proof {
                                let x = choose|x: int|
                                    0 <= x < batch.columns@.len() && (
                                    #[trigger] batch.columns@[x].name@) == column_names@[
                                        j as int
                                    ]@;
                                assert(column_names@[x]@ == column_names@[j as int]@);
                            }
                            return Err(TransformError::DuplicateOutputName(name));
                        },
                        _ => {
                            proof {
                                assert(false);
                            }
                            return Err(e);
                        },
                    }
                },
            };
        }
        Ok(batch)
    }

    /// Applies every step of the request to the typed rows and names the
    /// result after the source table with a `_with_deltas` suffix.
    /// Applies every step of the request to the typed rows and names the
    /// result after the source table with a `_with_deltas` suffix.
    /// Applies one step of a request: the dispatch over the transformation
    /// kinds, each owing its step predicate.
    /// Applies one delta step.
    #[verifier::rlimit(100)]
    #[verifier::spinoff_prover]
    fn step_delta(&self, batch: Batch, t: &SingleTransformation) -> (r: Result<
        Batch,
        TransformError,
    >)
        requires
            batch.wf(),
            t.transformation_type == TransformationType::Delta,
        ensures
            match r {
                Ok(out) => out.wf() && transformation_step_ok(batch, out, *t),
                Err(e) => transformation_step_err(batch, *t, e),
            },
    {
        if t.selected_columns.len() == 0 {
            return Err(TransformError::ColumnNotFound(String::new()));
        }
        if t.selected_columns.len() == 1 {
            let out_name = if t.output_column_names.len() > 0 {
                t.output_column_names[0].as_str()
            } else {
                t.output_column_name.as_str()
            };
            self.transformer.apply_delta(batch, t.selected_columns[0].as_str(), out_name)
        } else {
            self.transformer.apply_delta_multiple_custom(
                batch,
                &t.selected_columns,
                &t.output_column_names,
            )
        }
    }

    /// Applies one time-bin step.
    #[verifier::rlimit(100)]
    #[verifier::spinoff_prover]
    fn step_time_bin(&self, batch: Batch, t: &SingleTransformation) -> (r: Result<
        Batch,
        TransformError,
    >)
        requires
            batch.wf(),
            t.transformation_type == TransformationType::TimeBin,
        ensures
            match r {
                Ok(out) => out.wf() && transformation_step_ok(batch, out, *t),
                Err(e) => transformation_step_err(batch, *t, e),
            },
    {
        let time_column = match &t.time_column {
            Some(c) => c,
            None => {
                return Err(TransformError::ColumnNotFound(String::new()));
            },
        };
        let bin = match parse_u64(t.bin_size.as_str()) {
            Some(b) => b,
            None => {
                return Err(TransformError::ParseFailure {
                    value: t.bin_size.clone(),
                    formats: crate::timestamp::duration_formats(),
                });
            },
        };
        self.transformer.apply_time_bin(batch, time_column.as_str(), bin, t.output_column_name.as_str())
    }

    /// Applies one row-id step.
    #[verifier::rlimit(100)]
    #[verifier::spinoff_prover]
    fn step_row_id(&self, batch: Batch, t: &SingleTransformation) -> (r: Result<
        Batch,
        TransformError,
    >)
        requires
            batch.wf(),
            t.transformation_type == TransformationType::RowId,
        ensures
            match r {
                Ok(out) => out.wf() && transformation_step_ok(batch, out, *t),
                Err(e) => transformation_step_err(batch, *t, e),
            },
    {
        self.transformer.apply_row_id(
            batch,
            t.output_column_name.as_str(),
            match &t.grouping_columns {
                Some(g) => Some(g),
                None => None,
            },
        )
    }

    /// Applies one step of a request: the dispatch over the transformation
    /// kinds, each owing its step predicate.
    fn apply_one_step(&self, batch: Batch, t: &SingleTransformation) -> (r: Result<
        Batch,
        TransformError,
    >)
        requires
            batch.wf(),
        ensures
            match r {
                Ok(out) => out.wf() && transformation_step_ok(batch, out, *t),
                Err(e) => transformation_step_err(batch, *t, e),
            },
    {
        match t.transformation_type {
            TransformationType::Delta => self.step_delta(batch, t),
            TransformationType::TimeBin => self.step_time_bin(batch, t),
            TransformationType::RowId => self.step_row_id(batch, t),
            _ => {
                // The remaining derivations belong to the computed columns
                // processor.
                Err(TransformError::UnsupportedType)
            },
        }
    }

    /// Applies every step of the request to the typed rows and names the
    /// result after the source table with a `_with_deltas` suffix.
    /// Applies every step of the request to the typed rows and names the
    /// result after the source table with a `_with_deltas` suffix.
    /// Applies one step of a request: the dispatch over the transformation
    /// kinds, each owing its step predicate.
    #[verifier::rlimit(100)]
    #[verifier::spinoff_prover]
    /// Applies every step of the request to the typed rows and names the
    /// result after the source table with a `_with_deltas` suffix.
    pub fn apply_transformation(
        &self,
        request: &TransformationRequest,
        rows: &Vec<Vec<String>>,
        column_names: &Vec<String>,
    ) -> (r: Result<(Batch, String), TransformError>)
        ensures
            match r {
                Ok((b, name)) => {
                    &&& name@ == request.table_name@ + "_with_deltas.arrow"@
                    &&& exists|start: Batch|
                        #[trigger] converted_ok(rows@, column_names@, start)
                            && transformation_result_ok(start, b, request.transformations@)
                },
                Err(e) => {
                    ||| (e is EmptyInput && (rows@.len() == 0 || column_names@.len() == 0))
                    ||| (e matches TransformError::DuplicateOutputName(c) && (exists|
                        x: int,
                        y: int,
                    |
                        0 <= x < y < column_names@.len() && (#[trigger] column_names@[x])@ == (
                        #[trigger] column_names@[y])@ && c@ == column_names@[y]@))
                    ||| exists|start: Batch|
                        #[trigger] converted_ok(rows@, column_names@, start)
                            && transformation_result_err(start, request.transformations@, e)
                },
            },
    {
        let batch0 = match self.convert_rows_to_batch(rows, column_names) {
            Ok(b) => b,
            Err(e) => {
                return Err(e);
            },
        };
        let ghost start = batch0;
        let mut batch = batch0;
        let ghost mut chain: Seq<Batch> = seq![start];
        let steps = request.transformations.len();
        for s in 0..steps
            invariant
                steps == request.transformations@.len(),
                converted_ok(rows@, column_names@, start),
                batch.wf(),
                chain.len() == s + 1,
                chain[0] == start,
                chain[s as int] == batch,
                forall|j: int|
                    0 <= j < s ==> transformation_step_ok(
                        #[trigger] chain[j],
                        chain[j + 1],
                        request.transformations@[j],
                    ),
        {
            batch = match self.apply_one_step(batch, &request.transformations[s]) {
                Ok(b) => b,
                Err(e) => {
                    proof {
                        assert(transformation_partial(
                            start,
                            request.transformations@,
                            e,
                            chain,
                            s as int,
                        ));
                    }
                    return Err(e);
                },
            };
            proof {
                chain = chain.push(batch);
            }
        }
        proof {
            assert(transformation_fold_ok(start, batch, request.transformations@, chain));
        }
        let mut name = request.table_name.clone();
        name.append("_with_deltas.arrow");
        Ok((batch, name))
    }
}

/// The cells of a numeric column as fractions, integers promoted exactly.
pub open spec fn num_rat_cells(data: ColumnData) -> Seq<Option<Rational>> {
    if is_int_family(data) {
        int_cells_spec(data).map_values(
            |c: Option<i64>|
                match c {
                    Some(x) => Some(rat_of_int(x as int)),
                    None => None::<Rational>,
                },
        )
    } else {
        rat_cells(frac_cells_spec(data))
    }
}

/// Reads a numeric column as fractional cells, promoting integers.
pub fn to_frac_cells(data: &ColumnData) -> (r: Result<Vec<Option<Frac>>, TransformError>)
    requires
        data.wf(),
    ensures
        match r {
            Ok(v) => {
                &&& is_numeric(*data)
                &&& v@.len() == data.len_spec()
                &&& forall|i: int| 0 <= i < v@.len() ==> crate::column::frac_cell_ok(
                    #[trigger] v@[i],
                )
                &&& rat_cells(v@) =~= num_rat_cells(*data)
            },
            Err(e) => e is UnsupportedType && !is_numeric(*data),
        },
{
    match numeric_cells(data) {
        Ok(NumericCells::Ints(cells)) => {
            let n = cells.len();
            let mut out: Vec<Option<Frac>> = Vec::new();
            for i in 0..n
                invariant
                    n == cells@.len(),
                    out@.len() == i,
                    forall|j: int| 0 <= j < i ==> crate::column::frac_cell_ok(#[trigger] out@[j]),
                    forall|j: int|
                        0 <= j < i ==> #[trigger] cell_rat(out@[j]) == (match cells@[j] {
                            Some(x) => Some(rat_of_int(x as int)),
                            None => None::<Rational>,
                        }),
            {
                match cells[i] {
                    Some(x) => {
                        out.push(Some(Frac::from_int(x)));
                    },
                    None => {
                        out.push(None);
                    },
                }
            }
            proof {
                assert(rat_cells(out@) =~= num_rat_cells(*data));
            }
            Ok(out)
        },
        Ok(NumericCells::Fracs(cells)) => {
            proof {
                assert(rat_cells(cells@) =~= num_rat_cells(*data));
            }
            Ok(cells)
        },
        Err(e) => Err(e),
    }
}

} // verus!
