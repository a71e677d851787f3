//! Rows of the store's tables, and the generic operations on a table: copy,
//! select, find.

use vstd::prelude::*;
use crate::models::{
    Exercise, ExerciseToTrainingDay, Routine, Session, SetPerformanceRow, TrainingDay,
};

verus! {

/// A row of a table: it has an identifier and can be copied.
pub trait Row: Sized {
    /// The identifier of the row.
    spec fn id(&self) -> u128;

    /// Copies the row, field by field.
    fn duplicate(&self) -> (copy: Self)
        ensures
            copy == *self,
    ;
}

impl Row for Routine {
    open spec fn id(&self) -> u128 {
        self.routine_id
    }

    fn duplicate(&self) -> (copy: Self) {
        self.clone()
    }
}

impl Row for TrainingDay {
    open spec fn id(&self) -> u128 {
        self.day_id
    }

    fn duplicate(&self) -> (copy: Self) {
        self.clone()
    }
}

impl Row for Exercise {
    open spec fn id(&self) -> u128 {
        self.exercise_id
    }

    fn duplicate(&self) -> (copy: Self) {
        self.clone()
    }
}

impl Row for ExerciseToTrainingDay {
    open spec fn id(&self) -> u128 {
        self.link_id
    }

    fn duplicate(&self) -> (copy: Self) {
        *self
    }
}

impl Row for Session {
    open spec fn id(&self) -> u128 {
        self.session_id
    }

    fn duplicate(&self) -> (copy: Self) {
        self.clone()
    }
}

impl Row for SetPerformanceRow {
    open spec fn id(&self) -> u128 {
        self.set.performance_id
    }

    fn duplicate(&self) -> (copy: Self) {
        *self
    }
}

/// Whether no two rows share an identifier.
pub open spec fn distinct_ids<T: Row>(rows: Seq<T>) -> bool {
    forall|i: int, j: int|
        0 <= i < j < rows.len() ==> (#[trigger] rows[i]).id() != (#[trigger] rows[j]).id()
}

/// Whether every identifier lies below the bound.
pub open spec fn ids_below<T: Row>(rows: Seq<T>, bound: u128) -> bool {
    forall|i: int| 0 <= i < rows.len() ==> (#[trigger] rows[i]).id() < bound
}

/// Whether some row has the identifier.
pub open spec fn has_id<T: Row>(rows: Seq<T>, id: u128) -> bool {
    exists|i: int| 0 <= i < rows.len() && (#[trigger] rows[i]).id() == id
}

/// The position of the first row that passes the test, if any does.
pub open spec fn first_index<T>(rows: Seq<T>, passes: spec_fn(T) -> bool) -> Option<int>
    decreases rows.len(),
{
    if rows.len() == 0 {
        None
    } else {
        match first_index(rows.drop_last(), passes) {
            Some(at) => Some(at),
            None => if passes(rows.last()) {
                Some(rows.len() - 1)
            } else {
                None
            },
        }
    }
}

/// The first row that passes the test, if any does.
pub open spec fn first_row<T>(rows: Seq<T>, passes: spec_fn(T) -> bool) -> Option<T> {
    match first_index(rows, passes) {
        Some(at) => Some(rows[at]),
        None => None,
    }
}

/// What [`first_index`] finds: a position whose row passes the test and
/// before which no row does; or nothing, when no row passes.
pub proof fn lemma_first_index<T>(rows: Seq<T>, passes: spec_fn(T) -> bool)
    ensures
        match first_index(rows, passes) {
            Some(at) => 0 <= at < rows.len() && passes(rows[at]) && forall|j: int|
                0 <= j < at ==> !passes(#[trigger] rows[j]),
            None => forall|j: int| 0 <= j < rows.len() ==> !passes(#[trigger] rows[j]),
        },
    decreases rows.len(),
{
    if rows.len() > 0 {
        let head = rows.drop_last();
        lemma_first_index(head, passes);
        match first_index(head, passes) {
            Some(at) => {
                assert(head[at] == rows[at]);
                assert forall|j: int| 0 <= j < at implies !passes(#[trigger] rows[j]) by {
                    assert(head[j] == rows[j]);
                }
            },
            None => {
                assert forall|j: int| 0 <= j < rows.len() - 1 implies !passes(#[trigger] rows[j]) by {
                    assert(head[j] == rows[j]);
                }
            },
        }
    }
}

/// The first passing row of a table is found by looking at no more than the
/// rows up to and including it.
pub proof fn lemma_first_index_found<T>(rows: Seq<T>, passes: spec_fn(T) -> bool, at: int)
    requires
        0 <= at < rows.len(),
        passes(rows[at]),
        forall|j: int| 0 <= j < at ==> !passes(#[trigger] rows[j]),
    ensures
        first_index(rows, passes) == Some(at),
{
    lemma_first_index(rows, passes);
}

/// A row that was selected is a row of the table.
pub proof fn lemma_filter_within<T>(rows: Seq<T>, kept: spec_fn(T) -> bool, at: int)
    requires
        0 <= at < rows.filter(kept).len(),
    ensures
        kept(rows.filter(kept)[at]),
        exists|k: int| 0 <= k < rows.len() && #[trigger] rows[k] == rows.filter(kept)[at],
    decreases rows.len(),
{
    reveal(Seq::filter);
    if rows.len() > 0 {
        let head = rows.drop_last();
        if at < head.filter(kept).len() {
            lemma_filter_within(head, kept, at);
            let k = choose|k: int| 0 <= k < head.len() && #[trigger] head[k] == head.filter(kept)[at];
            assert(rows[k] == head[k]);
        } else {
            assert(rows[rows.len() - 1] == rows.filter(kept)[at]);
        }
    }
}

/// Selecting rows keeps their identifiers distinct.
pub proof fn lemma_filter_keeps_distinct<T: Row>(rows: Seq<T>, kept: spec_fn(T) -> bool)
    requires
        distinct_ids(rows),
    ensures
        distinct_ids(rows.filter(kept)),
    decreases rows.len(),
{
    reveal(Seq::filter);
    if rows.len() > 0 {
        let head = rows.drop_last();
        let last = rows.last();
        let chosen = head.filter(kept);
        assert forall|i: int, j: int| 0 <= i < j < head.len() implies (#[trigger] head[i]).id() != (
        #[trigger] head[j]).id() by {
            assert(head[i] == rows[i]);
            assert(head[j] == rows[j]);
        }
        lemma_filter_keeps_distinct(head, kept);
        if kept(last) {
            let longer = chosen.push(last);
            assert forall|i: int, j: int| 0 <= i < j < longer.len() implies (#[trigger] longer[i]).id()
                != (#[trigger] longer[j]).id() by {
                assert(longer[i] == chosen[i]);
                if j < chosen.len() {
                    assert(longer[j] == chosen[j]);
                } else {
                    lemma_filter_within(head, kept, i);
                    let k = choose|k: int| 0 <= k < head.len() && #[trigger] head[k] == chosen[i];
                    assert(rows[k] == head[k]);
                    assert(rows[rows.len() - 1] == last);
                }
            }
        }
    }
}

/// Selecting rows keeps their identifiers below the bound.
pub proof fn lemma_filter_keeps_below<T: Row>(rows: Seq<T>, kept: spec_fn(T) -> bool, bound: u128)
    requires
        ids_below(rows, bound),
    ensures
        ids_below(rows.filter(kept), bound),
{
    assert forall|i: int| 0 <= i < rows.filter(kept).len() implies (#[trigger] rows.filter(
        kept,
    )[i]).id() < bound by {
        lemma_filter_within(rows, kept, i);
        let k = choose|k: int| 0 <= k < rows.len() && #[trigger] rows[k] == rows.filter(kept)[i];
        assert(rows[k].id() < bound);
    }
}

/// A row with a new identifier below a larger bound keeps identifiers
/// distinct and below the bound.
pub proof fn lemma_push_keeps_ids<T: Row>(rows: Seq<T>, row: T, bound: u128)
    requires
        distinct_ids(rows),
        ids_below(rows, bound),
        row.id() == bound,
        bound < u128::MAX,
    ensures
        distinct_ids(rows.push(row)),
        ids_below(rows.push(row), (bound + 1) as u128),
{
    let longer = rows.push(row);
    assert forall|i: int, j: int| 0 <= i < j < longer.len() implies (#[trigger] longer[i]).id() != (
    #[trigger] longer[j]).id() by {
        assert(longer[i] == rows[i]);
        if j < rows.len() {
            assert(longer[j] == rows[j]);
        }
    }
    assert forall|i: int| 0 <= i < longer.len() implies (#[trigger] longer[i]).id() < bound + 1 by {
        if i < rows.len() {
            assert(longer[i] == rows[i]);
        }
    }
}

/// Replacing a row by one with the same identifier keeps identifiers
/// distinct and below their bound.
pub proof fn lemma_update_keeps_ids<T: Row>(rows: Seq<T>, at: int, row: T, bound: u128)
    requires
        0 <= at < rows.len(),
        row.id() == rows[at].id(),
    ensures
        distinct_ids(rows) ==> distinct_ids(rows.update(at, row)),
        ids_below(rows, bound) ==> ids_below(rows.update(at, row), bound),
{
    let changed = rows.update(at, row);
    if distinct_ids(rows) {
        assert forall|i: int, j: int| 0 <= i < j < changed.len() implies (#[trigger] changed[i]).id()
            != (#[trigger] changed[j]).id() by {
            assert(rows[i].id() != rows[j].id());
        }
    }
    if ids_below(rows, bound) {
        assert forall|i: int| 0 <= i < changed.len() implies (#[trigger] changed[i]).id()
            < bound by {
            assert(rows[i].id() < bound);
        }
    }
}

/// Copies a table.
pub fn copy_rows<T: Row>(rows: &Vec<T>) -> (copy: Vec<T>)
    ensures
        copy@ == rows@,
{
    let mut copy: Vec<T> = Vec::new();
    let mut i: usize = 0;
    while i < rows.len()
        invariant
            0 <= i <= rows.len(),
            copy@ == rows@.take(i as int),
        decreases rows.len() - i,
    {
        copy.push(rows[i].duplicate());
        proof {
            assert(rows@.take(i + 1) =~= rows@.take(i as int).push(rows@[i as int]));
        }
        i = i + 1;
    }
    proof {
        assert(rows@.take(i as int) == rows@);
    }
    copy
}

/// Copies the rows of a table that pass a test, in their order. The test is
/// given twice: as the closure that runs, and as the predicate that it computes.
pub(crate) fn select<T: Row, F: Fn(&T) -> bool>(
    rows: &Vec<T>,
    keep: F,
    Ghost(kept): Ghost<spec_fn(T) -> bool>,
) -> (chosen: Vec<T>)
    requires
        forall|row: T| #[trigger] call_requires(keep, (&row,)),
        forall|row: T, verdict: bool| #[trigger]
            call_ensures(keep, (&row,), verdict) ==> verdict == kept(row),
    ensures
        chosen@ == rows@.filter(kept),
{
    let mut chosen: Vec<T> = Vec::new();
    let mut i: usize = 0;
    while i < rows.len()
        invariant
            0 <= i <= rows.len(),
            chosen@ == rows@.take(i as int).filter(kept),
            forall|row: T| #[trigger] call_requires(keep, (&row,)),
            forall|row: T, verdict: bool| #[trigger]
                call_ensures(keep, (&row,), verdict) ==> verdict == kept(row),
        decreases rows.len() - i,
    {
        proof {
            reveal(Seq::filter);
            assert(rows@.take(i + 1).drop_last() =~= rows@.take(i as int));
        }
        if keep(&rows[i]) {
            chosen.push(rows[i].duplicate());
        }
        i = i + 1;
    }
    proof {
        assert(rows@.take(i as int) == rows@);
    }
    chosen
}

/// Finds the position of the first row that passes a test. The test is given
/// twice: as the closure that runs, and as the predicate that it computes.
pub(crate) fn locate<T, F: Fn(&T) -> bool>(
    rows: &Vec<T>,
    test: F,
    Ghost(passes): Ghost<spec_fn(T) -> bool>,
) -> (found: Option<usize>)
    requires
        forall|row: T| #[trigger] call_requires(test, (&row,)),
        forall|row: T, verdict: bool| #[trigger]
            call_ensures(test, (&row,), verdict) ==> verdict == passes(row),
    ensures
        match found {
            Some(at) => first_index(rows@, passes) == Some(at as int),
            None => first_index(rows@, passes) is None,
        },
{
    let mut i: usize = 0;
    while i < rows.len()
        invariant
            0 <= i <= rows.len(),
            forall|j: int| 0 <= j < i ==> !passes(#[trigger] rows@[j]),
            forall|row: T| #[trigger] call_requires(test, (&row,)),
            forall|row: T, verdict: bool| #[trigger]
                call_ensures(test, (&row,), verdict) ==> verdict == passes(row),
        decreases rows.len() - i,
    {
        if test(&rows[i]) {
            proof {
                lemma_first_index_found(rows@, passes, i as int);
            }
            return Some(i);
        }
        i = i + 1;
    }
    proof {
        lemma_first_index(rows@, passes);
    }
    None
}

} // verus!
