//! The entity model: plain records for routines, training days, exercises,
//! links, sessions and set performances, and the composite read views.
//!
//! Identifiers are 128-bit values. Timestamps are microseconds since the Unix
//! epoch; `None` means that the store has not set the mark. A weight is held
//! as the bit pattern of its single-precision value, so that records compare
//! field by field.

use vstd::prelude::*;

verus! {

/// Copies a text that may be absent.
fn copy_text(text: &Option<String>) -> (copy: Option<String>)
    ensures
        copy == *text,
{
    match text {
        Some(text) => Some(text.clone()),
        None => None,
    }
}

/// Copies a list of exercises.
fn copy_exercises(list: &Vec<ExerciseWithLinkId>) -> (copy: Vec<ExerciseWithLinkId>)
    ensures
        copy@ == list@,
{
    let copy = list.clone();
    assert(copy@ =~= list@);
    copy
}

/// A named workout plan.
#[derive(Debug, PartialEq, Eq, Default)]
pub struct Routine {
    pub routine_id: u128,
    pub name: String,
    pub description: String,
    pub is_active: bool,
    pub created_at: Option<i64>,
    pub updated_at: Option<i64>,
}

impl Clone for Routine {
    fn clone(&self) -> (copy: Self)
        ensures
            copy == *self,
    {
        Routine {
            routine_id: self.routine_id,
            name: self.name.clone(),
            description: self.description.clone(),
            is_active: self.is_active,
            created_at: self.created_at,
            updated_at: self.updated_at,
        }
    }
}

/// The payload that creates a routine.
#[derive(Debug, PartialEq, Eq, Default)]
pub struct CreateRoutine {
    pub name: String,
    pub description: String,
    pub is_active: bool,
}

impl Clone for CreateRoutine {
    fn clone(&self) -> (copy: Self)
        ensures
            copy == *self,
    {
        CreateRoutine {
            name: self.name.clone(),
            description: self.description.clone(),
            is_active: self.is_active,
        }
    }
}

/// A named slot within a routine.
#[derive(Debug, PartialEq, Eq, Default)]
pub struct TrainingDay {
    pub day_id: u128,
    pub routine_id: u128,
    pub day_name: String,
    pub created_at: Option<i64>,
    pub updated_at: Option<i64>,
}

impl Clone for TrainingDay {
    fn clone(&self) -> (copy: Self)
        ensures
            copy == *self,
    {
        TrainingDay {
            day_id: self.day_id,
            routine_id: self.routine_id,
            day_name: self.day_name.clone(),
            created_at: self.created_at,
            updated_at: self.updated_at,
        }
    }
}

/// The payload that creates a training day under a routine.
#[derive(Debug, PartialEq, Eq, Default)]
pub struct CreateTrainingDay {
    pub routine_id: u128,
    pub day_name: String,
}

impl Clone for CreateTrainingDay {
    fn clone(&self) -> (copy: Self)
        ensures
            copy == *self,
    {
        CreateTrainingDay { routine_id: self.routine_id, day_name: self.day_name.clone() }
    }
}

/// A reusable named movement.
#[derive(Debug, PartialEq, Eq, Default)]
pub struct Exercise {
    pub exercise_id: u128,
    pub exercise_name: String,
    pub exercise_description: String,
    pub created_at: Option<i64>,
    pub updated_at: Option<i64>,
}

impl Clone for Exercise {
    fn clone(&self) -> (copy: Self)
        ensures
            copy == *self,
    {
        Exercise {
            exercise_id: self.exercise_id,
            exercise_name: self.exercise_name.clone(),
            exercise_description: self.exercise_description.clone(),
            created_at: self.created_at,
            updated_at: self.updated_at,
        }
    }
}

/// A search by a fragment of an exercise's name.
#[derive(Debug, PartialEq, Eq, Default)]
pub struct SearchQuery {
    pub name: String,
}

impl Clone for SearchQuery {
    fn clone(&self) -> (copy: Self)
        ensures
            copy == *self,
    {
        SearchQuery { name: self.name.clone() }
    }
}

/// The payload that creates an exercise.
#[derive(Debug, PartialEq, Eq, Default)]
pub struct CreateExercise {
    pub exercise_name: String,
    pub exercise_description: String,
}

impl Clone for CreateExercise {
    fn clone(&self) -> (copy: Self)
        ensures
            copy == *self,
    {
        CreateExercise {
            exercise_name: self.exercise_name.clone(),
            exercise_description: self.exercise_description.clone(),
        }
    }
}

/// The association of one exercise with one training day.
#[derive(Debug, Clone, Copy, PartialEq, Eq, Default)]
pub struct ExerciseToTrainingDay {
    pub link_id: u128,
    pub exercise_id: u128,
    pub day_id: u128,
    pub created_at: Option<i64>,
    pub updated_at: Option<i64>,
}

/// An exercise as it appears under a training day, with the link that put it there.
#[derive(Debug, PartialEq, Eq, Default)]
pub struct ExerciseWithLinkId {
    pub exercise_id: u128,
    pub link_id: u128,
    pub exercise_name: String,
    pub exercise_description: String,
    pub created_at: Option<i64>,
    pub updated_at: Option<i64>,
}

impl Clone for ExerciseWithLinkId {
    fn clone(&self) -> (copy: Self)
        ensures
            copy == *self,
    {
        ExerciseWithLinkId {
            exercise_id: self.exercise_id,
            link_id: self.link_id,
            exercise_name: self.exercise_name.clone(),
            exercise_description: self.exercise_description.clone(),
            created_at: self.created_at,
            updated_at: self.updated_at,
        }
    }
}

/// A training day together with its linked exercises.
#[derive(Debug, PartialEq, Eq, Default)]
pub struct TrainingDayWithExercises {
    pub day_id: u128,
    pub routine_id: u128,
    pub day_name: String,
    pub exercises: Option<Vec<ExerciseWithLinkId>>,
    pub created_at: Option<i64>,
    pub updated_at: Option<i64>,
}

impl Clone for TrainingDayWithExercises {
    fn clone(&self) -> (copy: Self)
        ensures
            copy@ == self@,
    {
        TrainingDayWithExercises {
            day_id: self.day_id,
            routine_id: self.routine_id,
            day_name: self.day_name.clone(),
            exercises: match &self.exercises {
                Some(list) => Some(copy_exercises(list)),
                None => None,
            },
            created_at: self.created_at,
            updated_at: self.updated_at,
        }
    }
}

/// The mathematical value of a [`TrainingDayWithExercises`].
pub struct TrainingDayWithExercisesView {
    pub day_id: u128,
    pub routine_id: u128,
    pub day_name: String,
    pub exercises: Option<Seq<ExerciseWithLinkId>>,
    pub created_at: Option<i64>,
    pub updated_at: Option<i64>,
}

impl View for TrainingDayWithExercises {
    type V = TrainingDayWithExercisesView;

    open spec fn view(&self) -> TrainingDayWithExercisesView {
        TrainingDayWithExercisesView {
            day_id: self.day_id,
            routine_id: self.routine_id,
            day_name: self.day_name,
            exercises: match self.exercises {
                Some(list) => Some(list@),
                None => None,
            },
            created_at: self.created_at,
            updated_at: self.updated_at,
        }
    }
}

/// One row of the join of training days with their links and exercises. The
/// columns of the exercise side are absent where a day has no link.
#[derive(Debug, PartialEq, Eq, Default)]
pub struct TrainingDayWithExercisesQuery {
    pub day_id: u128,
    pub routine_id: u128,
    pub link_id: Option<u128>,
    pub exercise_id: Option<u128>,
    pub day_name: String,
    pub exercise_name: Option<String>,
    pub exercise_description: Option<String>,
    pub created_at: Option<i64>,
    pub updated_at: Option<i64>,
}

impl Clone for TrainingDayWithExercisesQuery {
    fn clone(&self) -> (copy: Self)
        ensures
            copy == *self,
    {
        TrainingDayWithExercisesQuery {
            day_id: self.day_id,
            routine_id: self.routine_id,
            link_id: self.link_id,
            exercise_id: self.exercise_id,
            day_name: self.day_name.clone(),
            exercise_name: copy_text(&self.exercise_name),
            exercise_description: copy_text(&self.exercise_description),
            created_at: self.created_at,
            updated_at: self.updated_at,
        }
    }
}

/// One timed run of a training day.
#[derive(Debug, PartialEq, Eq, Default)]
pub struct Session {
    pub session_id: u128,
    pub day_id: u128,
    pub day_name: String,
    pub in_progress: bool,
    pub created_at: Option<i64>,
    pub updated_at: Option<i64>,
}

impl Clone for Session {
    fn clone(&self) -> (copy: Self)
        ensures
            copy == *self,
    {
        Session {
            session_id: self.session_id,
            day_id: self.day_id,
            day_name: self.day_name.clone(),
            in_progress: self.in_progress,
            created_at: self.created_at,
            updated_at: self.updated_at,
        }
    }
}

/// A session together with the exercises linked to its day.
#[derive(Debug, PartialEq, Eq, Default)]
pub struct SessionWithExercises {
    pub session_id: u128,
    pub day_id: u128,
    pub day_name: String,
    pub in_progress: bool,
    pub exercises: Vec<ExerciseWithLinkId>,
    pub created_at: Option<i64>,
    pub updated_at: Option<i64>,
}

impl Clone for SessionWithExercises {
    fn clone(&self) -> (copy: Self)
        ensures
            copy@ == self@,
    {
        SessionWithExercises {
            session_id: self.session_id,
            day_id: self.day_id,
            day_name: self.day_name.clone(),
            in_progress: self.in_progress,
            exercises: copy_exercises(&self.exercises),
            created_at: self.created_at,
            updated_at: self.updated_at,
        }
    }
}

/// The mathematical value of a [`SessionWithExercises`].
pub struct SessionWithExercisesView {
    pub session_id: u128,
    pub day_id: u128,
    pub day_name: String,
    pub in_progress: bool,
    pub exercises: Seq<ExerciseWithLinkId>,
    pub created_at: Option<i64>,
    pub updated_at: Option<i64>,
}

impl View for SessionWithExercises {
    type V = SessionWithExercisesView;

    open spec fn view(&self) -> SessionWithExercisesView {
        SessionWithExercisesView {
            session_id: self.session_id,
            day_id: self.day_id,
            day_name: self.day_name,
            in_progress: self.in_progress,
            exercises: self.exercises@,
            created_at: self.created_at,
            updated_at: self.updated_at,
        }
    }
}

/// One recorded set: weight, repetitions and, optionally, repetitions in reserve.
#[derive(Debug, Clone, Copy, PartialEq, Eq, Default)]
pub struct SetPerformance {
    pub performance_id: u128,
    pub weight_bits: u32,
    pub reps: i16,
    pub set_number: i16,
    pub rir: Option<i16>,
    pub created_at: Option<i64>,
    pub updated_at: Option<i64>,
}

/// The payload that records a set.
#[derive(Debug, Clone, Copy, PartialEq, Eq, Default)]
pub struct SetPerformancePayload {
    pub weight_bits: u32,
    pub reps: i16,
    pub set_number: i16,
    pub rir: Option<i16>,
}

/// The sets recorded for one exercise within one session.
#[derive(Debug, PartialEq, Eq, Default)]
pub struct SessionPerformance {
    pub session_id: u128,
    pub exercise_id: u128,
    pub exercise_name: String,
    pub sets: Vec<SetPerformance>,
    pub created_at: Option<i64>,
    pub updated_at: Option<i64>,
}

impl Clone for SessionPerformance {
    fn clone(&self) -> (copy: Self)
        ensures
            copy@ == self@,
    {
        let sets = self.sets.clone();
        assert(sets@ =~= self.sets@);
        SessionPerformance {
            session_id: self.session_id,
            exercise_id: self.exercise_id,
            exercise_name: self.exercise_name.clone(),
            sets,
            created_at: self.created_at,
            updated_at: self.updated_at,
        }
    }
}

/// The mathematical value of a [`SessionPerformance`].
pub struct SessionPerformanceView {
    pub session_id: u128,
    pub exercise_id: u128,
    pub exercise_name: String,
    pub sets: Seq<SetPerformance>,
    pub created_at: Option<i64>,
    pub updated_at: Option<i64>,
}

impl View for SessionPerformance {
    type V = SessionPerformanceView;

    open spec fn view(&self) -> SessionPerformanceView {
        SessionPerformanceView {
            session_id: self.session_id,
            exercise_id: self.exercise_id,
            exercise_name: self.exercise_name,
            sets: self.sets@,
            created_at: self.created_at,
            updated_at: self.updated_at,
        }
    }
}

impl SessionPerformance {
    /// The record of an exercise for which no set has been recorded yet.
    pub open spec fn blank(
        session_id: u128,
        exercise_id: u128,
        exercise_name: String,
    ) -> SessionPerformanceView {
        SessionPerformanceView {
            session_id,
            exercise_id,
            exercise_name,
            sets: Seq::empty(),
            created_at: None,
            updated_at: None,
        }
    }

    /// Creates the record of an exercise within a session, with no sets and no
    /// timestamps.
    pub fn new(session_id: u128, exercise_id: u128, exercise_name: String) -> (record: Self)
        ensures
            record@ == Self::blank(session_id, exercise_id, exercise_name),
    {
        Self {
            session_id,
            exercise_id,
            exercise_name,
            sets: Vec::new(),
            created_at: None,
            updated_at: None,
        }
    }
}

/// A session with the exercises of its day and the performance recorded so
/// far, one entry per exercise.
#[derive(Debug, PartialEq, Eq, Default)]
pub struct SessionWithExercisePerformance {
    pub session_id: u128,
    pub day_id: u128,
    pub day_name: String,
    pub in_progress: bool,
    pub exercises: Vec<ExerciseWithLinkId>,
    pub performance: Vec<SessionPerformance>,
    pub created_at: Option<i64>,
    pub updated_at: Option<i64>,
}

impl Clone for SessionWithExercisePerformance {
    fn clone(&self) -> (copy: Self)
        ensures
            copy@ == self@,
    {
        let performance = self.performance.clone();
        assert(performance@.map_values(|p: SessionPerformance| p@) =~= self.performance@.map_values(
            |p: SessionPerformance| p@,
        ));
        SessionWithExercisePerformance {
            session_id: self.session_id,
            day_id: self.day_id,
            day_name: self.day_name.clone(),
            in_progress: self.in_progress,
            exercises: copy_exercises(&self.exercises),
            performance,
            created_at: self.created_at,
            updated_at: self.updated_at,
        }
    }
}

/// The mathematical value of a [`SessionWithExercisePerformance`].
pub struct SessionWithExercisePerformanceView {
    pub session_id: u128,
    pub day_id: u128,
    pub day_name: String,
    pub in_progress: bool,
    pub exercises: Seq<ExerciseWithLinkId>,
    pub performance: Seq<SessionPerformanceView>,
    pub created_at: Option<i64>,
    pub updated_at: Option<i64>,
}

impl View for SessionWithExercisePerformance {
    type V = SessionWithExercisePerformanceView;

    open spec fn view(&self) -> SessionWithExercisePerformanceView {
        SessionWithExercisePerformanceView {
            session_id: self.session_id,
            day_id: self.day_id,
            day_name: self.day_name,
            in_progress: self.in_progress,
            exercises: self.exercises@,
            performance: self.performance@.map_values(|p: SessionPerformance| p@),
            created_at: self.created_at,
            updated_at: self.updated_at,
        }
    }
}

/// One row of the join of sessions with the exercises linked to their day. The
/// columns of the exercise side are absent where the day has no link.
#[derive(Debug, PartialEq, Eq, Default)]
pub struct SessionsWithExercisesQuery {
    pub session_id: u128,
    pub day_id: u128,
    pub day_name: String,
    pub in_progress: bool,
    pub exercise_id: Option<u128>,
    pub exercise_name: Option<String>,
    pub exercise_description: Option<String>,
    pub link_id: Option<u128>,
    pub created_at: Option<i64>,
    pub updated_at: Option<i64>,
}

impl Clone for SessionsWithExercisesQuery {
    fn clone(&self) -> (copy: Self)
        ensures
            copy == *self,
    {
        SessionsWithExercisesQuery {
            session_id: self.session_id,
            day_id: self.day_id,
            day_name: self.day_name.clone(),
            in_progress: self.in_progress,
            exercise_id: self.exercise_id,
            exercise_name: copy_text(&self.exercise_name),
            exercise_description: copy_text(&self.exercise_description),
            link_id: self.link_id,
            created_at: self.created_at,
            updated_at: self.updated_at,
        }
    }
}

/// One stored set together with the session and exercise it belongs to.
#[derive(Debug, Clone, Copy, PartialEq, Eq, Default)]
pub struct SetPerformanceRow {
    pub session_id: u128,
    pub exercise_id: u128,
    pub set: SetPerformance,
}

} // verus!
