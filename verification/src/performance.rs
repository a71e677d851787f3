//! The performance view of a session: for each exercise of the session's day,
//! the sets recorded for it, in the order of their set numbers.

use vstd::prelude::*;
use crate::models::{
    ExerciseWithLinkId, Session, SessionPerformance, SessionPerformanceView,
    SessionWithExercisePerformance, SessionWithExercisePerformanceView, SetPerformance,
    SetPerformanceRow,
};

verus! {

/// The sets that the rows hold for one exercise of one session, in row order.
pub open spec fn sets_of(rows: Seq<SetPerformanceRow>, session_id: u128, exercise_id: u128) -> Seq<
    SetPerformance,
> {
    rows.filter_map(
        |row: SetPerformanceRow|
            if row.session_id == session_id && row.exercise_id == exercise_id {
                Some(row.set)
            } else {
                None
            },
    )
}

/// Whether the set numbers never decrease along the sequence.
pub open spec fn ordered_by_set_number(sets: Seq<SetPerformance>) -> bool {
    forall|i: int, j: int| 0 <= i < j < sets.len() ==> sets[i].set_number <= sets[j].set_number
}

/// How many of the sets have a set number that is no greater than the given one.
pub open spec fn place_of(sets: Seq<SetPerformance>, set_number: i16) -> int {
    sets.filter(|set: SetPerformance| set.set_number <= set_number).len() as int
}

/// The sets ordered by set number; sets with the same set number keep the
/// order in which they stand.
pub open spec fn in_order(sets: Seq<SetPerformance>) -> Seq<SetPerformance>
    decreases sets.len(),
{
    if sets.len() == 0 {
        Seq::empty()
    } else {
        let before = in_order(sets.drop_last());
        before.insert(place_of(before, sets.last().set_number), sets.last())
    }
}

/// In ordered sets, the place of a set number is the position of the first
/// set with a greater number.
proof fn lemma_place_of(sets: Seq<SetPerformance>, set_number: i16, at: int)
    requires
        ordered_by_set_number(sets),
        0 <= at <= sets.len(),
        forall|j: int| 0 <= j < at ==> sets[j].set_number <= set_number,
        at < sets.len() ==> sets[at].set_number > set_number,
    ensures
        place_of(sets, set_number) == at,
    decreases sets.len(),
{
    reveal(Seq::filter);
    if sets.len() > 0 {
        let head = sets.drop_last();
        assert forall|i: int, j: int| 0 <= i < j < head.len() implies head[i].set_number
            <= head[j].set_number by {
            assert(head[i] == sets[i] && head[j] == sets[j]);
        }
        if at == sets.len() {
            assert forall|j: int| 0 <= j < at - 1 implies head[j].set_number <= set_number by {
                assert(head[j] == sets[j]);
            }
            lemma_place_of(head, set_number, at - 1);
        } else {
            assert forall|j: int| 0 <= j < at implies head[j].set_number <= set_number by {
                assert(head[j] == sets[j]);
            }
            if at < head.len() {
                assert(head[at] == sets[at]);
            }
            lemma_place_of(head, set_number, at);
        }
    }
}

/// Putting a set at its place keeps ordered sets ordered and adds the set,
/// and nothing else, to them.
proof fn lemma_insert_in_order(sets: Seq<SetPerformance>, set: SetPerformance)
    requires
        ordered_by_set_number(sets),
    ensures
        0 <= place_of(sets, set.set_number) <= sets.len(),
        ordered_by_set_number(sets.insert(place_of(sets, set.set_number), set)),
        sets.insert(place_of(sets, set.set_number), set).to_multiset() == sets.to_multiset().insert(
            set,
        ),
{
    broadcast use vstd::seq_lib::group_to_multiset_ensures;

    let no_greater = |other: SetPerformance| other.set_number <= set.set_number;
    let at = place_of(sets, set.set_number);
    sets.lemma_filter_len(no_greater);
    let first_greater = choose_boundary(sets, set.set_number);
    lemma_boundary(sets, set.set_number);
    lemma_place_of(sets, set.set_number, first_greater);
    let longer = sets.insert(at, set);
    assert forall|a: int, b: int| 0 <= a < b < longer.len() implies longer[a].set_number
        <= longer[b].set_number by {
        if b < at {
            assert(longer[a] == sets[a] && longer[b] == sets[b]);
        } else if b == at {
            assert(longer[a] == sets[a]);
        } else if a < at {
            assert(longer[a] == sets[a] && longer[b] == sets[b - 1]);
        } else if a == at {
            assert(longer[b] == sets[b - 1]);
            if b - 1 > at {
                assert(sets[at].set_number <= sets[b - 1].set_number);
            }
        } else {
            assert(longer[a] == sets[a - 1] && longer[b] == sets[b - 1]);
        }
    }
    assert(longer.remove(at) =~= sets);
    assert(longer[at] == set);
    assert(longer.to_multiset().remove(set) == sets.to_multiset());
    assert(longer.contains(set));
    assert(longer.to_multiset() =~= sets.to_multiset().insert(set));
}

/// The position of the first set with a number greater than the given one,
/// or the length of the sets when there is none.
spec fn choose_boundary(sets: Seq<SetPerformance>, set_number: i16) -> int
    decreases sets.len(),
{
    if sets.len() == 0 {
        0
    } else if sets.last().set_number <= set_number {
        sets.len() as int
    } else {
        choose_boundary(sets.drop_last(), set_number)
    }
}

/// What [`choose_boundary`] finds in ordered sets.
proof fn lemma_boundary(sets: Seq<SetPerformance>, set_number: i16)
    requires
        ordered_by_set_number(sets),
    ensures
        0 <= choose_boundary(sets, set_number) <= sets.len(),
        forall|j: int| 0 <= j < choose_boundary(sets, set_number) ==> sets[j].set_number <= set_number,
        choose_boundary(sets, set_number) < sets.len() ==> sets[choose_boundary(
            sets,
            set_number,
        )].set_number > set_number,
    decreases sets.len(),
{
    if sets.len() > 0 && sets.last().set_number > set_number {
        let head = sets.drop_last();
        assert forall|i: int, j: int| 0 <= i < j < head.len() implies head[i].set_number
            <= head[j].set_number by {
            assert(head[i] == sets[i] && head[j] == sets[j]);
        }
        lemma_boundary(head, set_number);
        let at = choose_boundary(head, set_number);
        assert forall|j: int| 0 <= j < at implies sets[j].set_number <= set_number by {
            assert(head[j] == sets[j]);
        }
        if at < head.len() {
            assert(head[at] == sets[at]);
        }
    }
}

/// Ordering sets orders them and neither adds nor loses a set.
pub proof fn lemma_in_order(sets: Seq<SetPerformance>)
    ensures
        ordered_by_set_number(in_order(sets)),
        in_order(sets).to_multiset() == sets.to_multiset(),
        in_order(sets).len() == sets.len(),
    decreases sets.len(),
{
    broadcast use vstd::seq_lib::group_to_multiset_ensures;

    if sets.len() > 0 {
        let head = sets.drop_last();
        lemma_in_order(head);
        lemma_insert_in_order(in_order(head), sets.last());
        assert(head.push(sets.last()) =~= sets);
    }
}

/// Whether `sets` presents the recorded sets of one exercise of one session:
/// the same records as the rows hold for it, ordered by set number.
pub open spec fn presents_sets(
    sets: Seq<SetPerformance>,
    rows: Seq<SetPerformanceRow>,
    session_id: u128,
    exercise_id: u128,
) -> bool {
    &&& ordered_by_set_number(sets)
    &&& sets.to_multiset() == sets_of(rows, session_id, exercise_id).to_multiset()
}

/// Collects the sets recorded for one exercise of one session and orders
/// them by set number. Sets with the same set number stay in the order of
/// their rows.
pub fn sets_in_order(rows: &Vec<SetPerformanceRow>, session_id: u128, exercise_id: u128) -> (sets:
    Vec<SetPerformance>)
    ensures
        sets@ == in_order(sets_of(rows@, session_id, exercise_id)),
        presents_sets(sets@, rows@, session_id, exercise_id),
{
    let mut sets: Vec<SetPerformance> = Vec::new();
    let mut i: usize = 0;
    while i < rows.len()
        invariant
            0 <= i <= rows.len(),
            sets@ == in_order(sets_of(rows@.take(i as int), session_id, exercise_id)),
        decreases rows.len() - i,
    {
        let row = &rows[i];
        let ghost earlier = sets_of(rows@.take(i as int), session_id, exercise_id);
        proof {
            rows@.lemma_filter_map_take_succ(
                |row: SetPerformanceRow|
                    if row.session_id == session_id && row.exercise_id == exercise_id {
                        Some(row.set)
                    } else {
                        None
                    },
                i as int,
            );
            lemma_in_order(earlier);
        }
        if row.session_id == session_id && row.exercise_id == exercise_id {
            let set = row.set;
            let mut at: usize = 0;
            while at < sets.len() && sets[at].set_number <= set.set_number
                invariant
                    0 <= at <= sets.len(),
                    forall|j: int| 0 <= j < at ==> sets@[j].set_number <= set.set_number,
                decreases sets.len() - at,
            {
                at = at + 1;
            }
            proof {
                lemma_place_of(sets@, set.set_number, at as int);
                let later = sets_of(rows@.take(i + 1), session_id, exercise_id);
                assert(later =~= earlier.push(set));
                assert(later.drop_last() =~= earlier);
            }
            sets.insert(at, set);
        }
        i = i + 1;
    }
    proof {
        assert(rows@.take(i as int) == rows@);
        lemma_in_order(sets_of(rows@, session_id, exercise_id));
    }
    sets
}

/// The view of a session's performance entry for one exercise, given its sets.
pub open spec fn entry_of(session_id: u128, exercise: ExerciseWithLinkId, sets: Seq<SetPerformance>)
    -> SessionPerformanceView {
    SessionPerformanceView {
        session_id,
        exercise_id: exercise.exercise_id,
        exercise_name: exercise.exercise_name,
        sets,
        created_at: None,
        updated_at: None,
    }
}

/// The zero-filled performance of a session: one entry per exercise, in the
/// order of the exercises, each without sets.
pub open spec fn blank_performance(session_id: u128, exercises: Seq<ExerciseWithLinkId>) -> Seq<
    SessionPerformanceView,
> {
    exercises.map_values(
        |exercise: ExerciseWithLinkId| entry_of(session_id, exercise, Seq::empty()),
    )
}

/// The recorded performance of a session: one entry per exercise, in the
/// order of the exercises, each with the sets that the rows hold for it
/// within the session, ordered by set number.
pub open spec fn recorded_performance(
    session_id: u128,
    exercises: Seq<ExerciseWithLinkId>,
    rows: Seq<SetPerformanceRow>,
) -> Seq<SessionPerformanceView> {
    exercises.map_values(
        |exercise: ExerciseWithLinkId|
            entry_of(
                session_id,
                exercise,
                in_order(sets_of(rows, session_id, exercise.exercise_id)),
            ),
    )
}

/// The header columns of a session and the lists of a performance view, put together.
pub open spec fn performance_view(
    session: Session,
    exercises: Seq<ExerciseWithLinkId>,
    performance: Seq<SessionPerformanceView>,
) -> SessionWithExercisePerformanceView {
    SessionWithExercisePerformanceView {
        session_id: session.session_id,
        day_id: session.day_id,
        day_name: session.day_name,
        in_progress: session.in_progress,
        exercises,
        performance,
        created_at: session.created_at,
        updated_at: session.updated_at,
    }
}

impl SessionWithExercisePerformance {
    /// The view handed out when a session starts: the session, the exercises
    /// linked to its day, and one empty performance entry per exercise, in the
    /// order of the exercises.
    pub fn started(session: Session, exercises: Vec<ExerciseWithLinkId>) -> (view: Self)
        ensures
            view@ == performance_view(
                session,
                exercises@,
                blank_performance(session.session_id, exercises@),
            ),
    {
        let mut performance: Vec<SessionPerformance> = Vec::new();
        let mut i: usize = 0;
        while i < exercises.len()
            invariant
                0 <= i <= exercises.len(),
                performance.len() == i,
                forall|j: int|
                    0 <= j < i ==> (#[trigger] performance@[j])@ == entry_of(
                        session.session_id,
                        exercises@[j],
                        Seq::empty(),
                    ),
            decreases exercises.len() - i,
        {
            let exercise = &exercises[i];
            performance.push(
                SessionPerformance::new(
                    session.session_id,
                    exercise.exercise_id,
                    exercise.exercise_name.clone(),
                ),
            );
            i = i + 1;
        }
        proof {
            assert(performance@.map_values(|p: SessionPerformance| p@) =~= blank_performance(
                session.session_id,
                exercises@,
            ));
        }
        SessionWithExercisePerformance {
            session_id: session.session_id,
            day_id: session.day_id,
            day_name: session.day_name,
            in_progress: session.in_progress,
            exercises,
            performance,
            created_at: session.created_at,
            updated_at: session.updated_at,
        }
    }

    /// The view of a session with what has been recorded for it: the session,
    /// the exercises linked to its day, and for each exercise the sets that
    /// the rows hold for it within this session, ordered by set number.
    pub fn assembled(
        session: Session,
        exercises: Vec<ExerciseWithLinkId>,
        rows: &Vec<SetPerformanceRow>,
    ) -> (view: Self)
        ensures
            view@ == performance_view(
                session,
                exercises@,
                recorded_performance(session.session_id, exercises@, rows@),
            ),
    {
        let mut performance: Vec<SessionPerformance> = Vec::new();
        let mut i: usize = 0;
        while i < exercises.len()
            invariant
                0 <= i <= exercises.len(),
                performance.len() == i,
                forall|j: int|
                    0 <= j < i ==> (#[trigger] performance@[j])@ == entry_of(
                        session.session_id,
                        exercises@[j],
                        in_order(sets_of(rows@, session.session_id, exercises@[j].exercise_id)),
                    ),
            decreases exercises.len() - i,
        {
            let exercise = &exercises[i];
            let sets = sets_in_order(rows, session.session_id, exercise.exercise_id);
            performance.push(
                SessionPerformance {
                    session_id: session.session_id,
                    exercise_id: exercise.exercise_id,
                    exercise_name: exercise.exercise_name.clone(),
                    sets,
                    created_at: None,
                    updated_at: None,
                },
            );
            i = i + 1;
        }
        proof {
            assert(performance@.map_values(|p: SessionPerformance| p@) =~= recorded_performance(
                session.session_id,
                exercises@,
                rows@,
            ));
        }
        SessionWithExercisePerformance {
            session_id: session.session_id,
            day_id: session.day_id,
            day_name: session.day_name,
            in_progress: session.in_progress,
            exercises,
            performance,
            created_at: session.created_at,
            updated_at: session.updated_at,
        }
    }
}

} // verus!
