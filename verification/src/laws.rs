//! Laws of the repository, proved of every store that the invariant admits.

use vstd::prelude::*;
use crate::aggregate::{
    children_of, header_of, lemma_block_appended, lemma_childless_parent, lemma_header_from_row,
    lemma_parent_keys_cover, lemma_present_key, parent_keys, Gathers,
};
use crate::errors::SessionError;
use crate::grouping::{grouped_days, grouped_sessions};
use crate::models::{
    ExerciseWithLinkId, Session, SessionWithExercises, SessionsWithExercisesQuery,
    SetPerformancePayload, SetPerformanceRow, TrainingDay, TrainingDayWithExercises,
    TrainingDayWithExercisesQuery,
};
use crate::plans::data_reset;
use crate::rows::{distinct_ids, has_id, lemma_filter_keeps_distinct, lemma_first_index, Row};
use crate::store::{lemma_data_reset, StoreView, Tables};

verus! {

/// Every row of the join of training days with their links belongs to one of
/// the days, and carries no exercise when that day has no link.
proof fn lemma_row_of_some_day(tables: Tables, days: Seq<TrainingDay>, at: int)
    requires
        0 <= at < tables.rows_of_days(days).len(),
    ensures
        exists|d: int|
            0 <= d < days.len() && (#[trigger] days[d]).day_id == tables.rows_of_days(
                days,
            )[at].day_id && (tables.links_of_day(days[d].day_id).len() == 0
                ==> tables.rows_of_days(days)[at].exercise() is None),
    decreases days.len(),
{
    if days.len() > 0 {
        let head = days.drop_last();
        let before = tables.rows_of_days(head);
        if at < before.len() {
            lemma_row_of_some_day(tables, head, at);
            let d = choose|d: int|
                0 <= d < head.len() && (#[trigger] head[d]).day_id == before[at].day_id && (
                tables.links_of_day(head[d].day_id).len() == 0 ==> before[at].exercise() is None);
            assert(days[d] == head[d]);
        } else {
            assert(days[days.len() - 1] == days.last());
        }
    }
}

/// Every training day has a row in its join with its links.
proof fn lemma_day_has_row(tables: Tables, days: Seq<TrainingDay>, d: int)
    requires
        0 <= d < days.len(),
    ensures
        exists|at: int|
            0 <= at < tables.rows_of_days(days).len() && (#[trigger] tables.rows_of_days(
                days,
            )[at]).day_id == days[d].day_id,
    decreases days.len(),
{
    let head = days.drop_last();
    let before = tables.rows_of_days(head);
    let rows = tables.rows_of_days(days);
    if d < head.len() {
        lemma_day_has_row(tables, head, d);
        let at = choose|at: int| 0 <= at < before.len() && (#[trigger] before[at]).day_id == head[d].day_id;
        assert(rows[at] == before[at]);
    } else {
        let own = tables.rows_of_day(days.last());
        assert(own.len() > 0);
        assert(rows[before.len() as int] == own[0]);
        assert(own[0].day_id == days.last().day_id);
    }
}

/// A training day of a routine that has no linked exercise is listed among
/// the days of the routine with their exercises, with an empty list of
/// exercises: it is not left out.
pub proof fn law_day_without_exercises_is_listed(tables: Tables, routine_id: u128, at: int)
    requires
        0 <= at < tables.days.len(),
        tables.days[at].routine_id == routine_id,
        tables.links_of_day(tables.days[at].day_id).len() == 0,
    ensures
        exists|k: int|
            0 <= k < grouped_days(tables.day_rows(routine_id)).len() && (#[trigger] grouped_days(
                tables.day_rows(routine_id),
            )[k]).day_id == tables.days[at].day_id && grouped_days(
                tables.day_rows(routine_id),
            )[k].exercises == Some(Seq::<crate::models::ExerciseWithLinkId>::empty()),
{
    let day = tables.days[at];
    let of_routine = |day: TrainingDay| day.routine_id == routine_id;
    let days = tables.days.filter(of_routine);
    let rows = tables.day_rows(routine_id);
    tables.days.lemma_filter_contains(of_routine, at);
    let d = choose|d: int| 0 <= d < days.len() && days[d] == day;
    lemma_day_has_row(tables, days, d);
    let first = choose|r: int| 0 <= r < rows.len() && (#[trigger] rows[r]).day_id == days[d].day_id;
    assert(<TrainingDayWithExercises as crate::aggregate::Gathers>::row_key(&rows[first])
        == day.day_id);
    lemma_parent_keys_cover::<TrainingDayWithExercises>(rows, day.day_id);
    let keys = parent_keys::<TrainingDayWithExercises>(rows);
    let k = choose|k: int| 0 <= k < keys.len() && keys[k] == day.day_id;
    lemma_present_key::<TrainingDayWithExercises>(rows, day.day_id);
    lemma_header_from_row::<TrainingDayWithExercises>(rows, day.day_id);
    assert forall|r: int|
        0 <= r < rows.len() && <TrainingDayWithExercises as crate::aggregate::Gathers>::row_key(
            &#[trigger] rows[r],
        ) == day.day_id implies <TrainingDayWithExercises as crate::aggregate::Gathers>::row_child(
        &rows[r],
    ) is None by {
        lemma_row_of_some_day(tables, days, r);
    }
    lemma_childless_parent::<TrainingDayWithExercises>(rows, day.day_id);
    assert(grouped_days(rows)[k].day_id == day.day_id);
}

/// The join of training days with distinct identifiers, grouped by day, is
/// the days themselves, each with the exercises that its rows carry.
proof fn lemma_days_grouped(tables: Tables, days: Seq<TrainingDay>)
    requires
        distinct_ids(days),
    ensures
        parent_keys::<TrainingDayWithExercises>(tables.rows_of_days(days)) == days.map_values(
            |day: TrainingDay| day.day_id,
        ),
        forall|i: int|
            0 <= i < days.len() ==> header_of::<TrainingDayWithExercises>(
                tables.rows_of_days(days),
                (#[trigger] days[i]).day_id,
            ) == Some(days[i]) && children_of::<TrainingDayWithExercises>(
                tables.rows_of_days(days),
                days[i].day_id,
            ) == tables.day_with_exercises(days[i]).exercises->0,
    decreases days.len(),
{
    let ids = |day: TrainingDay| day.day_id;
    if days.len() == 0 {
        assert(days.map_values(ids) =~= Seq::<u128>::empty());
    } else {
        let head = days.drop_last();
        let last = days.last();
        let seen = tables.rows_of_days(head);
        let block = tables.rows_of_day(last);
        assert forall|i: int, j: int| 0 <= i < j < head.len() implies (#[trigger] head[i]).id() != (
        #[trigger] head[j]).id() by {
            assert(head[i] == days[i] && head[j] == days[j]);
        }
        lemma_days_grouped(tables, head);
        let keys = parent_keys::<TrainingDayWithExercises>(seen);
        if keys.contains(last.day_id) {
            let i = choose|i: int| 0 <= i < keys.len() && keys[i] == last.day_id;
            assert(head[i] == days[i]);
            assert(days[i].id() != days[days.len() - 1].id());
        }
        assert(block.len() > 0);
        lemma_block_appended::<TrainingDayWithExercises>(seen, block, last.day_id);
        assert(days.map_values(ids) =~= head.map_values(ids).push(last.day_id));
        assert(<TrainingDayWithExercises as Gathers>::row_header(&block[0]) == last);
        assert forall|i: int| 0 <= i < days.len() implies header_of::<TrainingDayWithExercises>(
            tables.rows_of_days(days),
            (#[trigger] days[i]).day_id,
        ) == Some(days[i]) && children_of::<TrainingDayWithExercises>(
            tables.rows_of_days(days),
            days[i].day_id,
        ) == tables.day_with_exercises(days[i]).exercises->0 by {
            assert(tables.rows_of_days(days) == seen + block);
            if i < head.len() {
                assert(head[i] == days[i]);
                assert(days[i].id() != days[days.len() - 1].id());
            } else {
                assert(days[i] == last);
                let carried = |row: TrainingDayWithExercisesQuery|
                    <TrainingDayWithExercises as Gathers>::row_child(&row);
                let listed = |row: TrainingDayWithExercisesQuery| row.exercise();
                assert(carried =~= listed);
            }
        }
    }
}

/// The training days of a routine with their exercises are the days of the
/// routine, in the order of insertion, each with the exercises that its
/// links put under it, in the order of the links.
pub proof fn law_days_are_listed_in_order(store: StoreView, routine_id: u128)
    requires
        store.wf(),
    ensures
        grouped_days(store.tables.day_rows(routine_id)) == store.tables.days.filter(
            |day: TrainingDay| day.routine_id == routine_id,
        ).map_values(|day: TrainingDay| store.tables.day_with_exercises(day)),
{
    let of_routine = |day: TrainingDay| day.routine_id == routine_id;
    let days = store.tables.days.filter(of_routine);
    lemma_filter_keeps_distinct(store.tables.days, of_routine);
    lemma_days_grouped(store.tables, days);
    assert(grouped_days(store.tables.day_rows(routine_id)) =~= days.map_values(
        |day: TrainingDay| store.tables.day_with_exercises(day),
    ));
}

/// The join of sessions with distinct identifiers, grouped by session, is
/// the sessions themselves, each with the exercises that its rows carry.
proof fn lemma_sessions_grouped(tables: Tables, sessions: Seq<Session>)
    requires
        distinct_ids(sessions),
    ensures
        parent_keys::<SessionWithExercises>(tables.rows_of_sessions(sessions))
            == sessions.map_values(|session: Session| session.session_id),
        forall|i: int|
            0 <= i < sessions.len() ==> header_of::<SessionWithExercises>(
                tables.rows_of_sessions(sessions),
                (#[trigger] sessions[i]).session_id,
            ) == Some(sessions[i]) && children_of::<SessionWithExercises>(
                tables.rows_of_sessions(sessions),
                sessions[i].session_id,
            ) == tables.session_with_exercises(sessions[i]).exercises,
    decreases sessions.len(),
{
    let ids = |session: Session| session.session_id;
    if sessions.len() == 0 {
        assert(sessions.map_values(ids) =~= Seq::<u128>::empty());
    } else {
        let head = sessions.drop_last();
        let last = sessions.last();
        let seen = tables.rows_of_sessions(head);
        let block = tables.rows_of_session(last);
        assert forall|i: int, j: int| 0 <= i < j < head.len() implies (#[trigger] head[i]).id() != (
        #[trigger] head[j]).id() by {
            assert(head[i] == sessions[i] && head[j] == sessions[j]);
        }
        lemma_sessions_grouped(tables, head);
        let keys = parent_keys::<SessionWithExercises>(seen);
        if keys.contains(last.session_id) {
            let i = choose|i: int| 0 <= i < keys.len() && keys[i] == last.session_id;
            assert(head[i] == sessions[i]);
            assert(sessions[i].id() != sessions[sessions.len() - 1].id());
        }
        assert(block.len() > 0);
        lemma_block_appended::<SessionWithExercises>(seen, block, last.session_id);
        assert(sessions.map_values(ids) =~= head.map_values(ids).push(last.session_id));
        assert(<SessionWithExercises as Gathers>::row_header(&block[0]) == last);
        assert forall|i: int| 0 <= i < sessions.len() implies header_of::<SessionWithExercises>(
            tables.rows_of_sessions(sessions),
            (#[trigger] sessions[i]).session_id,
        ) == Some(sessions[i]) && children_of::<SessionWithExercises>(
            tables.rows_of_sessions(sessions),
            sessions[i].session_id,
        ) == tables.session_with_exercises(sessions[i]).exercises by {
            assert(tables.rows_of_sessions(sessions) == seen + block);
            if i < head.len() {
                assert(head[i] == sessions[i]);
                assert(sessions[i].id() != sessions[sessions.len() - 1].id());
            } else {
                assert(sessions[i] == last);
                let carried = |row: SessionsWithExercisesQuery|
                    <SessionWithExercises as Gathers>::row_child(&row);
                let listed = |row: SessionsWithExercisesQuery| row.exercise();
                assert(carried =~= listed);
            }
        }
    }
}

/// The sessions of a training day with their exercises are the sessions of
/// the day, in the order of insertion, each with the exercises that the
/// links of the day put under it, in the order of the links.
pub proof fn law_sessions_are_listed_in_order(store: StoreView, day_id: u128)
    requires
        store.wf(),
    ensures
        grouped_sessions(store.tables.session_rows(day_id)) == store.tables.sessions.filter(
            |session: Session| session.day_id == day_id,
        ).map_values(|session: Session| store.tables.session_with_exercises(session)),
{
    let of_day = |session: Session| session.day_id == day_id;
    let sessions = store.tables.sessions.filter(of_day);
    lemma_filter_keeps_distinct(store.tables.sessions, of_day);
    lemma_sessions_grouped(store.tables, sessions);
    assert(grouped_sessions(store.tables.session_rows(day_id)) =~= sessions.map_values(
        |session: Session| store.tables.session_with_exercises(session),
    ));
}

/// No training day has two sessions in progress: of two different sessions
/// in progress, each belongs to a training day of its own.
pub proof fn law_one_session_in_progress_per_day(store: StoreView, first: int, second: int)
    requires
        store.wf(),
        0 <= first < store.tables.sessions.len(),
        0 <= second < store.tables.sessions.len(),
        first != second,
        store.tables.sessions[first].in_progress,
        store.tables.sessions[second].in_progress,
    ensures
        store.tables.sessions[first].day_id != store.tables.sessions[second].day_id,
        store.tables.sessions[first].session_id != store.tables.sessions[second].session_id,
{
    let sessions = store.tables.sessions;
    if first < second {
        assert(sessions[first].id() != sessions[second].id());
    } else {
        assert(sessions[second].id() != sessions[first].id());
    }
}

/// While a session of a training day is in progress no session of that day
/// starts, and asking for one changes nothing.
pub proof fn law_start_conflicts(store: StoreView, day_id: u128)
    requires
        store.tables.in_progress(day_id),
    ensures
        !store.can_start(day_id),
        store.after_start(day_id) == store,
{
}

/// Starting and ending sessions keep the store's invariant; so no sequence
/// of starts and ends leads to a training day with two sessions in progress.
pub proof fn law_sessions_keep_invariant(store: StoreView, day_id: u128, session_id: u128)
    requires
        store.wf(),
    ensures
        store.after_start(day_id).wf(),
        store.after_end(session_id).wf(),
{
    let sessions = store.tables.sessions;
    if store.can_start(day_id) {
        let session = store.new_session(day_id, store.tables.day(day_id)->0.day_name);
        let after = sessions.push(session);
        crate::rows::lemma_push_keeps_ids(sessions, session, store.next_id);
        assert forall|i: int, j: int|
            0 <= i < j < after.len() && (#[trigger] after[i]).in_progress && (
            #[trigger] after[j]).in_progress implies after[i].day_id != after[j].day_id by {
            assert(after[i] == sessions[i]);
            if j < sessions.len() {
                assert(after[j] == sessions[j]);
            }
        }
    }
    let running = |session: Session| session.session_id == session_id && session.in_progress;
    lemma_first_index(sessions, running);
    if store.session_to_end(session_id) is Some {
        let at = store.session_to_end(session_id)->0;
        let ended = Session { in_progress: false, ..sessions[at] };
        let after = sessions.update(at, ended);
        crate::rows::lemma_update_keeps_ids(sessions, at, ended, store.next_id);
        assert forall|i: int, j: int|
            0 <= i < j < after.len() && (#[trigger] after[i]).in_progress && (
            #[trigger] after[j]).in_progress implies after[i].day_id != after[j].day_id by {
            assert(after[i] == sessions[i] && after[j] == sessions[j]);
        }
    }
}

/// After the session in progress of a training day was ended, a session of
/// that day can start again.
pub proof fn law_start_after_end(store: StoreView, at: int)
    requires
        store.wf(),
        0 <= at < store.tables.sessions.len(),
        store.tables.sessions[at].in_progress,
        store.tables.day(store.tables.sessions[at].day_id) is Some,
        !store.exhausted(),
    ensures
        store.end_outcome(store.tables.sessions[at].session_id) == Ok::<u128, SessionError>(
            store.tables.sessions[at].session_id,
        ),
        store.after_end(store.tables.sessions[at].session_id).can_start(
            store.tables.sessions[at].day_id,
        ),
{
    let sessions = store.tables.sessions;
    let session_id = sessions[at].session_id;
    let day_id = sessions[at].day_id;
    let running = |session: Session| session.session_id == session_id && session.in_progress;
    lemma_first_index(sessions, running);
    assert(running(sessions[at]));
    let found = store.session_to_end(session_id)->0;
    if found != at {
        if found < at {
            assert(sessions[found].id() != sessions[at].id());
        } else {
            assert(sessions[at].id() != sessions[found].id());
        }
    }
    let after = store.after_end(session_id).tables.sessions;
    if store.after_end(session_id).tables.in_progress(day_id) {
        let i = choose|i: int|
            0 <= i < after.len() && (#[trigger] after[i]).day_id == day_id && after[i].in_progress;
        assert(i != at);
        assert(after[i] == sessions[i]);
        if i < at {
            assert(sessions[i].day_id != sessions[at].day_id);
        } else {
            assert(sessions[at].day_id != sessions[i].day_id);
        }
    }
}

/// A session ends once. Ending a session that does not exist fails with
/// `NotFound`; and after a session was ended, ending it again fails with
/// `NotFound` and changes nothing.
pub proof fn law_session_ends_once(store: StoreView, session_id: u128)
    requires
        store.wf(),
    ensures
        !has_id(store.tables.sessions, session_id) ==> store.end_outcome(session_id) == Err::<
            u128,
            SessionError,
        >(SessionError::NotFound),
        store.end_outcome(session_id) is Ok ==> store.after_end(session_id).end_outcome(session_id)
            == Err::<u128, SessionError>(SessionError::NotFound) && store.after_end(
            session_id,
        ).after_end(session_id) == store.after_end(session_id),
{
    let running = |session: Session| session.session_id == session_id && session.in_progress;
    let sessions = store.tables.sessions;
    lemma_first_index(sessions, running);
    if store.end_outcome(session_id) is Ok {
        let at = store.session_to_end(session_id)->0;
        let after = store.after_end(session_id).tables.sessions;
        lemma_first_index(after, running);
        if store.after_end(session_id).session_to_end(session_id) is Some {
            let again = store.after_end(session_id).session_to_end(session_id)->0;
            assert(running(after[again]));
            if again != at {
                assert(after[again] == sessions[again]);
                assert(sessions[again].id() == sessions[at].id());
            }
        }
    }
}

/// A set is recorded once under its session, exercise and set number.
/// Recording a second time under the same three adds no row: the one row
/// that the first recording left is rewritten with the weight, the
/// repetitions and the repetitions in reserve of the second, keeps its
/// identifier, and carries a later stamp.
pub proof fn law_set_recorded_once(
    store: StoreView,
    session_id: u128,
    exercise_id: u128,
    first: SetPerformancePayload,
    second: SetPerformancePayload,
)
    requires
        store.wf(),
        first.set_number == second.set_number,
        store.record_outcome(session_id, exercise_id, first) is Some,
        store.after_record(session_id, exercise_id, first).record_outcome(
            session_id,
            exercise_id,
            second,
        ) is Some,
    ensures
        ({
            let once = store.after_record(session_id, exercise_id, first);
            let twice = once.after_record(session_id, exercise_id, second);
            let earlier = store.record_outcome(session_id, exercise_id, first)->0;
            let later = once.record_outcome(session_id, exercise_id, second)->0;
            let recorded = |row: SetPerformanceRow|
                row.session_id == session_id && row.exercise_id == exercise_id
                    && row.set.set_number == second.set_number;
            &&& twice.tables.performances.len() == once.tables.performances.len()
            &&& twice.tables.performances.filter(recorded) == seq![
                SetPerformanceRow { session_id, exercise_id, set: later },
            ]
            &&& later.performance_id == earlier.performance_id
            &&& later.set_number == second.set_number
            &&& later.weight_bits == second.weight_bits
            &&& later.reps == second.reps
            &&& later.rir == second.rir
            &&& later.created_at == earlier.created_at
            &&& earlier.updated_at is Some
            &&& later.updated_at is Some
            &&& later.updated_at->0 > earlier.updated_at->0
        }),
{
    let recorded = |row: SetPerformanceRow|
        row.session_id == session_id && row.exercise_id == exercise_id && row.set.set_number
            == second.set_number;
    let before = store.tables.performances;
    lemma_first_index(before, recorded);
    let once = store.after_record(session_id, exercise_id, first);
    let rows = once.tables.performances;
    lemma_first_index(rows, recorded);
    let at: int = match store.set_to_rewrite(session_id, exercise_id, first.set_number) {
        Some(at) => at,
        None => before.len() as int,
    };
    assert(recorded(rows[at]));
    assert(once.set_to_rewrite(session_id, exercise_id, second.set_number) is Some);
    let found = once.set_to_rewrite(session_id, exercise_id, second.set_number)->0;
    assert(forall|i: int| 0 <= i < rows.len() && i != at ==> !recorded(#[trigger] rows[i])) by {
        assert forall|i: int| 0 <= i < rows.len() && i != at implies !recorded(
            #[trigger] rows[i],
        ) by {
            if i < before.len() {
                assert(rows[i] == before[i]);
                if at < before.len() {
                    if i < at {
                        assert(!crate::store::same_set(before[i], before[at]));
                    } else {
                        assert(!crate::store::same_set(before[at], before[i]));
                    }
                }
            }
        }
    }
    assert(found == at);
    let twice = once.after_record(session_id, exercise_id, second);
    let last = twice.tables.performances;
    lemma_single_match(last, recorded, at);
}

/// A table in which exactly one row passes a test yields that row alone.
proof fn lemma_single_match<T>(rows: Seq<T>, passes: spec_fn(T) -> bool, at: int)
    requires
        0 <= at < rows.len(),
        passes(rows[at]),
        forall|i: int| 0 <= i < rows.len() && i != at ==> !passes(#[trigger] rows[i]),
    ensures
        rows.filter(passes) == seq![rows[at]],
    decreases rows.len(),
{
    reveal(Seq::filter);
    let head = rows.drop_last();
    if at < rows.len() - 1 {
        assert(head[at] == rows[at]);
        assert forall|i: int| 0 <= i < head.len() && i != at implies !passes(#[trigger] head[i]) by {
            assert(head[i] == rows[i]);
        }
        lemma_single_match(head, passes, at);
        assert(!passes(rows[rows.len() - 1]));
    } else {
        assert forall|i: int| 0 <= i < head.len() implies !passes(#[trigger] head[i]) by {
            assert(head[i] == rows[i]);
        }
        head.lemma_all_neg_filter_empty(passes);
        assert(rows.filter(passes) =~= seq![rows[at]]);
    }
}

/// Resetting all data leaves all six tables empty, whatever they held; on
/// tables that are empty already it does the same, and affects no row.
pub proof fn law_reset_empties(tables: Tables)
    ensures
        tables.apply_all(data_reset()) == Tables::empty(),
        Tables::empty().apply_all(data_reset()) == Tables::empty(),
        forall|i: int|
            0 <= i < data_reset().len() ==> #[trigger] Tables::empty().affected_by(
                data_reset(),
            )[i] == 0,
{
    lemma_data_reset(tables);
    lemma_data_reset(Tables::empty());
    assert forall|i: int| 0 <= i < data_reset().len() implies #[trigger] Tables::empty().affected_by(
        data_reset(),
    )[i] == 0 by {
        lemma_reset_keeps_empty(data_reset().take(i));
    }
}

/// Statements that only delete leave empty tables empty.
proof fn lemma_reset_keeps_empty(plan: Seq<crate::plans::Statement>)
    ensures
        Tables::empty().apply_all(plan) == Tables::empty(),
    decreases plan.len(),
{
    reveal(Seq::filter);
    if plan.len() > 0 {
        lemma_reset_keeps_empty(plan.drop_last());
    }
}

} // verus!
