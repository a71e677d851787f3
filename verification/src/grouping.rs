//! The two groupings that the repository reads: training days with their
//! exercises, and sessions with the exercises of their day.

use vstd::prelude::*;
use crate::aggregate::{children_of, group_by_parent, header_of, parent_keys, Gathers};
use crate::errors::SessionError;
use crate::models::{
    ExerciseWithLinkId, Session, SessionWithExercises, SessionWithExercisesView,
    SessionsWithExercisesQuery, TrainingDay, TrainingDayWithExercises,
    TrainingDayWithExercisesQuery, TrainingDayWithExercisesView,
};

verus! {

impl TrainingDayWithExercisesQuery {
    /// The training day that this row belongs to.
    pub open spec fn day(&self) -> TrainingDay {
        TrainingDay {
            day_id: self.day_id,
            routine_id: self.routine_id,
            day_name: self.day_name,
            created_at: self.created_at,
            updated_at: self.updated_at,
        }
    }

    /// The exercise that this row carries: present when every column of the
    /// exercise side is. It takes its timestamps from the row.
    pub open spec fn exercise(&self) -> Option<ExerciseWithLinkId> {
        if self.exercise_id is Some && self.exercise_name is Some && self.exercise_description
            is Some && self.link_id is Some {
            Some(
                ExerciseWithLinkId {
                    exercise_id: self.exercise_id->0,
                    link_id: self.link_id->0,
                    exercise_name: self.exercise_name->0,
                    exercise_description: self.exercise_description->0,
                    created_at: self.created_at,
                    updated_at: self.updated_at,
                },
            )
        } else {
            None
        }
    }
}

impl Gathers for TrainingDayWithExercises {
    type Row = TrainingDayWithExercisesQuery;

    type Child = ExerciseWithLinkId;

    type Header = TrainingDay;

    open spec fn row_key(row: &TrainingDayWithExercisesQuery) -> u128 {
        row.day_id
    }

    open spec fn row_header(row: &TrainingDayWithExercisesQuery) -> TrainingDay {
        row.day()
    }

    open spec fn row_child(row: &TrainingDayWithExercisesQuery) -> Option<ExerciseWithLinkId> {
        row.exercise()
    }

    open spec fn header(&self) -> TrainingDay {
        TrainingDay {
            day_id: self.day_id,
            routine_id: self.routine_id,
            day_name: self.day_name,
            created_at: self.created_at,
            updated_at: self.updated_at,
        }
    }

    open spec fn children(&self) -> Seq<ExerciseWithLinkId> {
        match self.exercises {
            Some(list) => list@,
            None => Seq::empty(),
        }
    }

    open spec fn wf(&self) -> bool {
        self.exercises is Some
    }

    fn key_of(row: &TrainingDayWithExercisesQuery) -> (key: u128) {
        row.day_id
    }

    fn child_of(row: &TrainingDayWithExercisesQuery) -> (child: Option<ExerciseWithLinkId>) {
        match (&row.exercise_id, &row.exercise_name, &row.exercise_description, &row.link_id) {
            (Some(exercise_id), Some(exercise_name), Some(exercise_description), Some(link_id)) => {
                Some(
                    ExerciseWithLinkId {
                        exercise_id: *exercise_id,
                        link_id: *link_id,
                        exercise_name: exercise_name.clone(),
                        exercise_description: exercise_description.clone(),
                        created_at: row.created_at,
                        updated_at: row.updated_at,
                    },
                )
            },
            _ => None,
        }
    }

    fn open(row: &TrainingDayWithExercisesQuery) -> (parent: Self) {
        TrainingDayWithExercises {
            day_id: row.day_id,
            routine_id: row.routine_id,
            day_name: row.day_name.clone(),
            exercises: Some(Vec::new()),
            created_at: row.created_at,
            updated_at: row.updated_at,
        }
    }

    fn attach(&mut self, child: ExerciseWithLinkId) {
        match &mut self.exercises {
            Some(list) => {
                list.push(child);
            },
            None => {
                let mut list: Vec<ExerciseWithLinkId> = Vec::new();
                list.push(child);
                self.exercises = Some(list);
            },
        }
    }
}

/// The training day of the given key as the rows describe it: the columns of
/// the first row of that day, and the exercises of all its rows, in row order.
pub open spec fn grouped_day(
    rows: Seq<TrainingDayWithExercisesQuery>,
    day_id: u128,
) -> TrainingDayWithExercisesView {
    let day = header_of::<TrainingDayWithExercises>(rows, day_id)->0;
    TrainingDayWithExercisesView {
        day_id: day.day_id,
        routine_id: day.routine_id,
        day_name: day.day_name,
        exercises: Some(children_of::<TrainingDayWithExercises>(rows, day_id)),
        created_at: day.created_at,
        updated_at: day.updated_at,
    }
}

/// The training days that the rows describe, in the order in which the days
/// are first seen.
pub open spec fn grouped_days(rows: Seq<TrainingDayWithExercisesQuery>) -> Seq<
    TrainingDayWithExercisesView,
> {
    let keys = parent_keys::<TrainingDayWithExercises>(rows);
    Seq::new(keys.len(), |i: int| grouped_day(rows, keys[i]))
}

/// Rebuilds training days with their exercises from the rows of the join.
/// A day whose rows carry no exercise comes out with an empty list.
pub fn training_days_with_exercises(rows: &Vec<TrainingDayWithExercisesQuery>) -> (days: Vec<
    TrainingDayWithExercises,
>)
    ensures
        days@.map_values(|day: TrainingDayWithExercises| day@) == grouped_days(rows@),
{
    let days = group_by_parent::<TrainingDayWithExercises>(rows);
    proof {
        let keys = parent_keys::<TrainingDayWithExercises>(rows@);
        assert forall|i: int| 0 <= i < days@.len() implies (#[trigger] days@[i])@ == grouped_day(
            rows@,
            keys[i],
        ) by {
            assert(days@[i].wf());
        }
        assert(days@.map_values(|day: TrainingDayWithExercises| day@) =~= grouped_days(rows@));
    }
    days
}

impl SessionsWithExercisesQuery {
    /// The session that this row belongs to.
    pub open spec fn session(&self) -> Session {
        Session {
            session_id: self.session_id,
            day_id: self.day_id,
            day_name: self.day_name,
            in_progress: self.in_progress,
            created_at: self.created_at,
            updated_at: self.updated_at,
        }
    }

    /// The exercise that this row carries: present when every column of the
    /// exercise side is. It takes its timestamps from the row.
    pub open spec fn exercise(&self) -> Option<ExerciseWithLinkId> {
        if self.exercise_id is Some && self.exercise_name is Some && self.exercise_description
            is Some && self.link_id is Some {
            Some(
                ExerciseWithLinkId {
                    exercise_id: self.exercise_id->0,
                    link_id: self.link_id->0,
                    exercise_name: self.exercise_name->0,
                    exercise_description: self.exercise_description->0,
                    created_at: self.created_at,
                    updated_at: self.updated_at,
                },
            )
        } else {
            None
        }
    }
}

impl Gathers for SessionWithExercises {
    type Row = SessionsWithExercisesQuery;

    type Child = ExerciseWithLinkId;

    type Header = Session;

    open spec fn row_key(row: &SessionsWithExercisesQuery) -> u128 {
        row.session_id
    }

    open spec fn row_header(row: &SessionsWithExercisesQuery) -> Session {
        row.session()
    }

    open spec fn row_child(row: &SessionsWithExercisesQuery) -> Option<ExerciseWithLinkId> {
        row.exercise()
    }

    open spec fn header(&self) -> Session {
        Session {
            session_id: self.session_id,
            day_id: self.day_id,
            day_name: self.day_name,
            in_progress: self.in_progress,
            created_at: self.created_at,
            updated_at: self.updated_at,
        }
    }

    open spec fn children(&self) -> Seq<ExerciseWithLinkId> {
        self.exercises@
    }

    open spec fn wf(&self) -> bool {
        true
    }

    fn key_of(row: &SessionsWithExercisesQuery) -> (key: u128) {
        row.session_id
    }

    fn child_of(row: &SessionsWithExercisesQuery) -> (child: Option<ExerciseWithLinkId>) {
        match (&row.exercise_id, &row.exercise_name, &row.exercise_description, &row.link_id) {
            (Some(exercise_id), Some(exercise_name), Some(exercise_description), Some(link_id)) => {
                Some(
                    ExerciseWithLinkId {
                        exercise_id: *exercise_id,
                        link_id: *link_id,
                        exercise_name: exercise_name.clone(),
                        exercise_description: exercise_description.clone(),
                        created_at: row.created_at,
                        updated_at: row.updated_at,
                    },
                )
            },
            _ => None,
        }
    }

    fn open(row: &SessionsWithExercisesQuery) -> (parent: Self) {
        SessionWithExercises {
            session_id: row.session_id,
            day_id: row.day_id,
            day_name: row.day_name.clone(),
            in_progress: row.in_progress,
            exercises: Vec::new(),
            created_at: row.created_at,
            updated_at: row.updated_at,
        }
    }

    fn attach(&mut self, child: ExerciseWithLinkId) {
        self.exercises.push(child);
    }
}

/// The session of the given key as the rows describe it: the columns of the
/// first row of that session, and the exercises of all its rows, in row order.
pub open spec fn grouped_session(
    rows: Seq<SessionsWithExercisesQuery>,
    session_id: u128,
) -> SessionWithExercisesView {
    let session = header_of::<SessionWithExercises>(rows, session_id)->0;
    SessionWithExercisesView {
        session_id: session.session_id,
        day_id: session.day_id,
        day_name: session.day_name,
        in_progress: session.in_progress,
        exercises: children_of::<SessionWithExercises>(rows, session_id),
        created_at: session.created_at,
        updated_at: session.updated_at,
    }
}

/// The sessions that the rows describe, in the order in which the sessions
/// are first seen.
pub open spec fn grouped_sessions(rows: Seq<SessionsWithExercisesQuery>) -> Seq<
    SessionWithExercisesView,
> {
    let keys = parent_keys::<SessionWithExercises>(rows);
    Seq::new(keys.len(), |i: int| grouped_session(rows, keys[i]))
}

/// Whether some session of the rows has no exercise at all.
pub open spec fn some_session_without_exercises(rows: Seq<SessionsWithExercisesQuery>) -> bool {
    exists|i: int|
        0 <= i < grouped_sessions(rows).len() && (#[trigger] grouped_sessions(
            rows,
        )[i]).exercises.len() == 0
}

/// Rebuilds sessions with the exercises of their day from the rows of the
/// join. Fails with [`SessionError::NoExercisesFound`] exactly when some
/// session comes out without an exercise.
pub fn sessions_with_exercises(rows: &Vec<SessionsWithExercisesQuery>) -> (result: Result<
    Vec<SessionWithExercises>,
    SessionError,
>)
    ensures
        some_session_without_exercises(rows@) ==> result == Err::<
            Vec<SessionWithExercises>,
            SessionError,
        >(SessionError::NoExercisesFound),
        !some_session_without_exercises(rows@) ==> result is Ok && result->Ok_0@.map_values(
            |session: SessionWithExercises| session@,
        ) == grouped_sessions(rows@),
{
    let sessions = group_by_parent::<SessionWithExercises>(rows);
    proof {
        let keys = parent_keys::<SessionWithExercises>(rows@);
        assert forall|i: int| 0 <= i < sessions@.len() implies (#[trigger] sessions@[i])@
            == grouped_session(rows@, keys[i]) by {
            assert(sessions@[i].wf());
        }
        assert(sessions@.map_values(|session: SessionWithExercises| session@) =~= grouped_sessions(
            rows@,
        ));
    }
    let mut i: usize = 0;
    while i < sessions.len()
        invariant
            0 <= i <= sessions.len(),
            sessions@.map_values(|session: SessionWithExercises| session@) == grouped_sessions(
                rows@,
            ),
            forall|j: int| 0 <= j < i ==> (#[trigger] grouped_sessions(rows@)[j]).exercises.len() > 0,
        decreases sessions.len() - i,
    {
        if sessions[i].exercises.is_empty() {
            proof {
                assert(sessions@.map_values(|session: SessionWithExercises| session@)[i as int]
                    == sessions@[i as int]@);
                assert(grouped_sessions(rows@)[i as int].exercises.len() == 0);
            }
            return Err(SessionError::NoExercisesFound);
        }
        proof {
            assert(sessions@.map_values(|session: SessionWithExercises| session@)[i as int]
                == sessions@[i as int]@);
        }
        i = i + 1;
    }
    Ok(sessions)
}

} // verus!
