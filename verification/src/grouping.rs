use vstd::prelude::*;
use vstd::set_lib::{lemma_int_range, set_int_range};
use vstd::string::StringExecFns;
use crate::column::{cell_chars, render_cell, ColumnData};
use crate::error::TransformError;

verus! {

/// The rule a group-id column is derived by.
#[derive(Debug, Clone, PartialEq)]
pub enum GroupingRule {
    /// A new id whenever the stringified value changes.
    ValueChange { column: String },
    /// Ids only inside maximal runs equal to a target value; the sentinel
    /// `-1` everywhere else.
    ValueEquals { column: String, value: String },
    /// Ids advanced by maximal runs of empty (null or blank) cells.
    IsEmpty { column: String },
}

impl GroupingRule {
    /// A short description of the rule for display.
    pub fn display_name(&self) -> (r: String)
        ensures
            r@.len() > 0,
    {
        proof {
            reveal_strlit("When '");
            reveal_strlit("' changes");
            reveal_strlit("' = '");
            reveal_strlit("'");
            reveal_strlit("' is empty");
        }
        match self {
            GroupingRule::ValueChange { column } => {
                let mut s = String::from_str("When '");
                s.append(column.as_str());
                s.append("' changes");
                s
            },
            GroupingRule::ValueEquals { column, value } => {
                let mut s = String::from_str("When '");
                s.append(column.as_str());
                s.append("' = '");
                s.append(value.as_str());
                s.append("'");
                s
            },
            GroupingRule::IsEmpty { column } => {
                let mut s = String::from_str("When '");
                s.append(column.as_str());
                s.append("' is empty");
                s
            },
        }
    }
}

/// One configured group-id column: the rule, the output column name, and
/// whether the running id resets at group boundaries.
#[derive(Debug, Clone)]
pub struct GroupingConfig {
    pub rule: GroupingRule,
    pub output_column: String,
    pub reset_on_change: bool,
}

// ---------------------------------------------------------------------------
// ValueChange: specification and scan
// ---------------------------------------------------------------------------
/// The id of row `i` under the value-change rule: it starts at zero and,
/// whenever the stringified value differs from the previous row's, either
/// advances by one or, in reset mode, freezes back to zero.
pub open spec fn change_id_at(vals: Seq<Seq<char>>, reset: bool, i: int) -> int
    decreases i,
{
    if i <= 0 {
        0
    } else if vals[i] != vals[i - 1] {
        if reset {
            0
        } else {
            change_id_at(vals, reset, i - 1) + 1
        }
    } else {
        change_id_at(vals, reset, i - 1)
    }
}

pub proof fn lemma_change_id_bound(vals: Seq<Seq<char>>, reset: bool, i: int)
    ensures
        0 <= change_id_at(vals, reset, i) <= if i <= 0 {
            0int
        } else {
            i
        },
    decreases i,
{
    if i > 0 {
        lemma_change_id_bound(vals, reset, i - 1);
    }
}

/// Assigns value-change group ids over stringified cells.
pub fn value_change_ids(vals: &Vec<String>, reset: bool) -> (r: Result<Vec<i64>, TransformError>)
    ensures
        match r {
            Ok(ids) => vals@.len() > 0 && ids@.len() == vals@.len() && forall|i: int|
                0 <= i < ids@.len() ==> #[trigger] ids@[i] == change_id_at(
                    vals@.map_values(|s: String| s@),
                    reset,
                    i,
                ),
            Err(e) => (e is EmptyInput && vals@.len() == 0) || (e
                is NumericOverflow && vals@.len() > i64::MAX),
        },
{
    let ghost views = vals@.map_values(|s: String| s@);
    let n = vals.len();
    if n == 0 {
        return Err(TransformError::EmptyInput);
    }
    let mut ids: Vec<i64> = Vec::new();
    let mut g: i64 = 0;
    ids.push(0);
    for i in 1..n
        invariant
            n == vals@.len(),
            views == vals@.map_values(|s: String| s@),
            ids@.len() == i,
            g == change_id_at(views, reset, i - 1),
            0 <= g <= i - 1,
            forall|j: int| 0 <= j < i ==> #[trigger] ids@[j] == change_id_at(views, reset, j),
    {
        if !vals[i].eq(&vals[i - 1]) {
            if reset {
                g = 0;
            } else {
                g = match g.checked_add(1) {
                    Some(v) => v,
                    None => {
                        return Err(TransformError::NumericOverflow);
                    },
                };
            }
        }
        ids.push(g);
    }
    Ok(ids)
}

// ---------------------------------------------------------------------------
// ValueEquals: specification and scan
// ---------------------------------------------------------------------------
/// Scan state of the value-equals rule: the running id and whether the
/// scan sits inside a run of matching rows.
pub struct EqState {
    pub id: int,
    pub inside: bool,
}

/// State after the first `n` rows: entering a matching run advances the id
/// (or resets it to zero); leaving one clears the inside flag.
pub open spec fn eq_state(vals: Seq<Seq<char>>, target: Seq<char>, reset: bool, n: int) -> EqState
    decreases n,
{
    if n <= 0 {
        EqState { id: 0, inside: false }
    } else {
        let st = eq_state(vals, target, reset, n - 1);
        let m = vals[n - 1] == target;
        if m && !st.inside {
            EqState {
                id: if reset {
                    0
                } else {
                    st.id + 1
                },
                inside: true,
            }
        } else if !m {
            EqState { id: st.id, inside: false }
        } else {
            st
        }
    }
}

/// The id of row `i` under the value-equals rule: the running id inside a
/// matching run, the sentinel `-1` outside.
pub open spec fn eq_id_at(vals: Seq<Seq<char>>, target: Seq<char>, reset: bool, i: int) -> int {
    let st = eq_state(vals, target, reset, i + 1);
    if st.inside {
        st.id
    } else {
        -1
    }
}

pub proof fn lemma_eq_state_invariant(
    vals: Seq<Seq<char>>,
    target: Seq<char>,
    reset: bool,
    n: int,
)
    ensures
        0 <= eq_state(vals, target, reset, n).id <= if n <= 0 {
            0int
        } else {
            n
        },
        n > 0 ==> (eq_state(vals, target, reset, n).inside <==> vals[n - 1] == target),
        n <= 0 ==> !eq_state(vals, target, reset, n).inside,
    decreases n,
{
    if n > 0 {
        lemma_eq_state_invariant(vals, target, reset, n - 1);
    }
}

/// Assigns value-equals group ids over stringified cells: matching rows
/// carry the run's id, others the sentinel `-1`.
pub fn value_equals_ids(vals: &Vec<String>, target: &str, reset: bool) -> (r: Result<
    Vec<i64>,
    TransformError,
>)
    ensures
        match r {
            Ok(ids) => vals@.len() > 0 && ids@.len() == vals@.len() && forall|i: int|
                0 <= i < ids@.len() ==> #[trigger] ids@[i] == eq_id_at(
                    vals@.map_values(|s: String| s@),
                    target@,
                    reset,
                    i,
                ),
            Err(e) => (e is EmptyInput && vals@.len() == 0) || (e
                is NumericOverflow && vals@.len() > i64::MAX),
        },
{
    let ghost views = vals@.map_values(|s: String| s@);
    let n = vals.len();
    if n == 0 {
        return Err(TransformError::EmptyInput);
    }
    let mut ids: Vec<i64> = Vec::new();
    let mut g: i64 = 0;
    let mut inside: bool = false;
    for i in 0..n
        invariant
            n == vals@.len(),
            views == vals@.map_values(|s: String| s@),
            ids@.len() == i,
            g == eq_state(views, target@, reset, i as int).id,
            inside == eq_state(views, target@, reset, i as int).inside,
            0 <= g <= i,
            forall|j: int|
                0 <= j < i ==> #[trigger] ids@[j] == eq_id_at(views, target@, reset, j),
    {
        let m = crate::text::str_eq(vals[i].as_str(), target);
        if m && !inside {
            if reset {
                g = 0;
            } else {
                g = match g.checked_add(1) {
                    Some(v) => v,
                    None => {
                        return Err(TransformError::NumericOverflow);
                    },
                };
            }
            inside = true;
        } else if !m && inside {
            inside = false;
        }
        ids.push(if inside {
            g
        } else {
            -1
        });
    }
    Ok(ids)
}

// ---------------------------------------------------------------------------
// IsEmpty: specification and scan
// ---------------------------------------------------------------------------
/// Scan state of the is-empty rule: the running id, whether the scan sits
/// inside an empty run, and whether no empty run has been seen yet.
pub struct EmptyState {
    pub id: int,
    pub inside: bool,
    pub first: bool,
}

/// State after the first `n` rows: entering an empty run advances the id
/// (or resets it), except that the very first empty run keeps id zero;
/// non-empty rows only clear the inside flag, carrying the id forward.
pub open spec fn empty_state(vals: Seq<Seq<char>>, reset: bool, n: int) -> EmptyState
    decreases n,
{
    if n <= 0 {
        EmptyState { id: 0, inside: false, first: true }
    } else {
        let st = empty_state(vals, reset, n - 1);
        let e = vals[n - 1].len() == 0;
        if e && !st.inside {
            EmptyState {
                id: if st.first {
                    st.id
                } else if reset {
                    0
                } else {
                    st.id + 1
                },
                inside: true,
                first: false,
            }
        } else if !e {
            EmptyState { id: st.id, inside: false, first: st.first }
        } else {
            st
        }
    }
}

/// The id of row `i` under the is-empty rule: every row carries the id
/// established by the most recent empty run.
pub open spec fn empty_id_at(vals: Seq<Seq<char>>, reset: bool, i: int) -> int {
    empty_state(vals, reset, i + 1).id
}

pub proof fn lemma_empty_state_invariant(vals: Seq<Seq<char>>, reset: bool, n: int)
    ensures
        0 <= empty_state(vals, reset, n).id <= if n <= 0 {
            0int
        } else {
            n
        },
    decreases n,
{
    if n > 0 {
        lemma_empty_state_invariant(vals, reset, n - 1);
    }
}

/// Assigns is-empty group ids over stringified cells (a null cell
/// stringifies to the empty string, so emptiness is emptiness of the
/// rendering).
pub fn is_empty_ids(vals: &Vec<String>, reset: bool) -> (r: Result<Vec<i64>, TransformError>)
    ensures
        match r {
            Ok(ids) => vals@.len() > 0 && ids@.len() == vals@.len() && forall|i: int|
                0 <= i < ids@.len() ==> #[trigger] ids@[i] == empty_id_at(
                    vals@.map_values(|s: String| s@),
                    reset,
                    i,
                ),
            Err(e) => (e is EmptyInput && vals@.len() == 0) || (e
                is NumericOverflow && vals@.len() > i64::MAX),
        },
{
    let ghost views = vals@.map_values(|s: String| s@);
    let n = vals.len();
    if n == 0 {
        return Err(TransformError::EmptyInput);
    }
    let mut ids: Vec<i64> = Vec::new();
    let mut g: i64 = 0;
    let mut inside: bool = false;
    let mut first: bool = true;
    for i in 0..n
        invariant
            n == vals@.len(),
            views == vals@.map_values(|s: String| s@),
            ids@.len() == i,
            g == empty_state(views, reset, i as int).id,
            inside == empty_state(views, reset, i as int).inside,
            first == empty_state(views, reset, i as int).first,
            0 <= g <= i,
            forall|j: int| 0 <= j < i ==> #[trigger] ids@[j] == empty_id_at(views, reset, j),
    {
        let e = vals[i].as_str().unicode_len() == 0;
        if e && !inside {
            if first {
            } else if reset {
                g = 0;
            } else {
                g = match g.checked_add(1) {
                    Some(v) => v,
                    None => {
                        return Err(TransformError::NumericOverflow);
                    },
                };
            }
            first = false;
            inside = true;
        } else if !e {
            inside = false;
        }
        ids.push(g);
    }
    Ok(ids)
}

// ---------------------------------------------------------------------------
// Stringifying a column for grouping
// ---------------------------------------------------------------------------
/// The stringification of every cell of a column, the common input of the
/// three grouping rules.
pub open spec fn rendered_spec(data: ColumnData) -> Seq<Seq<char>> {
    Seq::new(data.len_spec(), |i: int| cell_chars(data, i))
}

/// Renders every cell of a column.
pub fn render_column(data: &ColumnData) -> (r: Vec<String>)
    requires
        data.wf(),
    ensures
        r@.map_values(|s: String| s@) =~= rendered_spec(*data),
        r@.len() == data.len_spec(),
{
    let n = data.len();
    let mut out: Vec<String> = Vec::new();
    for i in 0..n
        invariant
            n == data.len_spec(),
            data.wf(),
            out@.len() == i,
            forall|j: int| 0 <= j < i ==> (#[trigger] out@[j])@ == cell_chars(*data, j),
    {
        let s = render_cell(data, i);
        out.push(s);
    }
    out
}

// ---------------------------------------------------------------------------
// Laws
// ---------------------------------------------------------------------------
/// The number of runs of equal values: one for a nonempty column, plus one
/// for every adjacent pair that differs.
pub open spec fn run_count(vals: Seq<Seq<char>>) -> int
    decreases vals.len(),
{
    if vals.len() == 0 {
        0
    } else if vals.len() == 1 {
        1
    } else {
        run_count(vals.drop_last()) + if vals[vals.len() - 1] != vals[vals.len() - 2] {
            1int
        } else {
            0int
        }
    }
}

proof fn lemma_change_id_runs(vals: Seq<Seq<char>>, i: int)
    requires
        0 <= i < vals.len(),
    ensures
        change_id_at(vals, false, i) == run_count(vals.subrange(0, i + 1)) - 1,
    decreases i,
{
    let pref = vals.subrange(0, i + 1);
    if i == 0 {
        assert(pref.len() == 1);
    } else {
        lemma_change_id_runs(vals, i - 1);
        assert(pref.drop_last() =~= vals.subrange(0, i));
        assert(pref[pref.len() - 1] == vals[i]);
        assert(pref[pref.len() - 2] == vals[i - 1]);
    }
}

proof fn lemma_change_ids_cover(vals: Seq<Seq<char>>, n: int, k: int)
    requires
        0 < n <= vals.len(),
        0 <= k <= change_id_at(vals, false, n - 1),
    ensures
        exists|i: int| 0 <= i < n && change_id_at(vals, false, i) == k,
    decreases n,
{
    if change_id_at(vals, false, n - 1) == k {
        assert(change_id_at(vals, false, n - 1) == k);
    } else {
        assert(n >= 2);
        assert(change_id_at(vals, false, n - 1) <= change_id_at(vals, false, n - 2) + 1);
        lemma_change_ids_cover(vals, n - 1, k);
    }
}

/// Law: under the value-change rule without reset, the set of distinct ids
/// has exactly as many elements as there are maximal runs of equal values
/// in the column.
pub proof fn lemma_value_change_distinct_ids(vals: Seq<Seq<char>>)
    requires
        vals.len() > 0,
    ensures
        Seq::new(vals.len(), |i: int| change_id_at(vals, false, i)).to_set().len() == run_count(
            vals,
        ),
{
    let n = vals.len() as int;
    let ids = Seq::new(vals.len(), |i: int| change_id_at(vals, false, i));
    let last = change_id_at(vals, false, n - 1);
    lemma_change_id_bound(vals, false, n - 1);
    assert(ids.to_set() =~= set_int_range(0, last + 1)) by {
        assert forall|x: int| ids.to_set().contains(x) implies set_int_range(
            0,
            last + 1,
        ).contains(x) by {
            let i = choose|i: int| 0 <= i < ids.len() && ids[i] == x;
            lemma_change_id_bound(vals, false, i);
            lemma_change_id_mono(vals, i, n - 1);
        }
        assert forall|x: int| set_int_range(0, last + 1).contains(x) implies ids.to_set().contains(
            x,
        ) by {
            lemma_change_ids_cover(vals, n, x);
            let i = choose|i: int| 0 <= i < n && change_id_at(vals, false, i) == x;
            assert(ids[i] == x);
        }
    }
    lemma_int_range(0, last + 1);
    lemma_change_id_runs(vals, n - 1);
    assert(vals.subrange(0, n) =~= vals);
}

proof fn lemma_change_id_mono(vals: Seq<Seq<char>>, i: int, j: int)
    requires
        i <= j,
    ensures
        change_id_at(vals, false, i) <= change_id_at(vals, false, j),
    decreases j - i,
{
    if i < j {
        lemma_change_id_mono(vals, i, j - 1);
    }
}

/// Law: under the value-equals rule, a row differing from the target is
/// labeled with the sentinel `-1`; a row equal to the target carries a
/// non-negative id, and the id is constant across a maximal matching run.
pub proof fn lemma_value_equals_sentinel(
    vals: Seq<Seq<char>>,
    target: Seq<char>,
    reset: bool,
)
    ensures
        forall|i: int|
            0 <= i < vals.len() && (#[trigger] vals[i]) != target ==> eq_id_at(
                vals,
                target,
                reset,
                i,
            ) == -1,
        forall|i: int|
            0 <= i < vals.len() && (#[trigger] vals[i]) == target ==> eq_id_at(
                vals,
                target,
                reset,
                i,
            ) >= 0,
        forall|i: int|
            1 <= i < vals.len() && (#[trigger] vals[i]) == target && vals[i - 1] == target
                ==> eq_id_at(vals, target, reset, i) == eq_id_at(vals, target, reset, i - 1),
{
    assert forall|i: int|
        0 <= i < vals.len() && (#[trigger] vals[i]) != target implies eq_id_at(
        vals,
        target,
        reset,
        i,
    ) == -1 by {
        lemma_eq_state_invariant(vals, target, reset, i + 1);
    }
    assert forall|i: int|
        0 <= i < vals.len() && (#[trigger] vals[i]) == target implies eq_id_at(
        vals,
        target,
        reset,
        i,
    ) >= 0 by {
        lemma_eq_state_invariant(vals, target, reset, i + 1);
        lemma_eq_state_invariant(vals, target, reset, i);
    }
    assert forall|i: int|
        1 <= i < vals.len() && (#[trigger] vals[i]) == target && vals[i - 1]
            == target implies eq_id_at(vals, target, reset, i) == eq_id_at(
        vals,
        target,
        reset,
        i - 1,
    ) by {
        lemma_eq_state_invariant(vals, target, reset, i);
    }
}

} // verus!
