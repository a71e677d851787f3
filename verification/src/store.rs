//! The in-memory repository: the six logical tables held in memory, with the
//! operations of the repository on them.
//!
//! The store gives out identifiers from a counter and stamps rows with a
//! logical clock that advances with every write, so that identifiers are
//! never reused and a later write always carries a later stamp.

use vstd::prelude::*;
use vstd::string::StringExecFns;
use crate::bulk::{BulkInsert, BulkInsertView, BulkStep, BulkStepView};
use crate::errors::{RepositoryError, SessionError};
use crate::grouping::{
    grouped_days, grouped_sessions, sessions_with_exercises, some_session_without_exercises,
    training_days_with_exercises,
};
use crate::models::{
    CreateExercise, CreateRoutine, CreateTrainingDay, Exercise, ExerciseToTrainingDay,
    ExerciseWithLinkId, Routine, Session, SessionWithExercisePerformance, SessionWithExercises,
    SessionsWithExercisesQuery, SetPerformance, SetPerformancePayload, SetPerformanceRow,
    SessionWithExercisesView, TrainingDay, TrainingDayWithExercises,
    TrainingDayWithExercisesQuery, TrainingDayWithExercisesView,
};
use crate::performance::{blank_performance, performance_view, recorded_performance};
use crate::plans::{
    clear_data_outcome, clear_data_plan, data_reset, day_deletion, delete_training_day_outcome,
    delete_training_day_plan, deleted_day, Statement, Table,
};
use crate::transaction::{Command, Reply, Step, Transaction, TransactionError, TransactionView};
use crate::session::{SessionAnswer, SessionQuery, StartSession, StartStep};
use crate::search::{mentions, text_mentions};
use crate::rows::{
    copy_rows, distinct_ids, first_index, first_row, has_id, ids_below, lemma_filter_keeps_below,
    lemma_filter_keeps_distinct, lemma_first_index, lemma_push_keeps_ids, lemma_update_keeps_ids,
    locate, select, Row,
};

verus! {

/// The six logical tables, each in the order in which its rows were inserted.
pub struct Tables {
    pub routines: Seq<Routine>,
    pub days: Seq<TrainingDay>,
    pub exercises: Seq<Exercise>,
    pub links: Seq<ExerciseToTrainingDay>,
    pub sessions: Seq<Session>,
    pub performances: Seq<SetPerformanceRow>,
}

/// The mathematical value of a [`MemoryRepository`].
pub struct StoreView {
    pub tables: Tables,
    /// The identifier that the next inserted row gets.
    pub next_id: u128,
    /// The stamp that the next write carries.
    pub clock: i64,
    /// The number of transaction commands that still succeed before one
    /// fails, if a failure has been arranged.
    pub fault: Option<u64>,
}

/// What is reported when a transaction command fails as arranged.
pub open spec fn fault_text() -> Seq<char> {
    "Injected fault"@
}

/// The arranged failure after `commands` more commands have succeeded.
pub open spec fn fault_after(fault: Option<u64>, commands: nat) -> Option<u64> {
    match fault {
        Some(left) => if left >= commands {
            Some((left - commands) as u64)
        } else {
            None
        },
        None => None,
    }
}

/// What is reported when the store has no identifier or stamp left to give.
pub open spec fn exhausted_text() -> Seq<char> {
    "Identifier space exhausted"@
}

impl Tables {
    /// The tables without any row.
    pub open spec fn empty() -> Tables {
        Tables {
            routines: Seq::empty(),
            days: Seq::empty(),
            exercises: Seq::empty(),
            links: Seq::empty(),
            sessions: Seq::empty(),
            performances: Seq::empty(),
        }
    }

    /// Whether every identifier in every table is distinct within its table
    /// and lies below the bound.
    pub open spec fn ids_in_order(self, bound: u128) -> bool {
        &&& distinct_ids(self.routines) && ids_below(self.routines, bound)
        &&& distinct_ids(self.days) && ids_below(self.days, bound)
        &&& distinct_ids(self.exercises) && ids_below(self.exercises, bound)
        &&& distinct_ids(self.links) && ids_below(self.links, bound)
        &&& distinct_ids(self.sessions) && ids_below(self.sessions, bound)
        &&& distinct_ids(self.performances) && ids_below(self.performances, bound)
    }

    /// Whether no two recorded sets share session, exercise and set number.
    pub open spec fn sets_are_unique(self) -> bool {
        forall|i: int, j: int|
            0 <= i < j < self.performances.len() ==> !same_set(
                #[trigger] self.performances[i],
                #[trigger] self.performances[j],
            )
    }

    /// Whether no training day has two sessions in progress.
    pub open spec fn one_session_per_day(self) -> bool {
        forall|i: int, j: int|
            0 <= i < j < self.sessions.len() && (#[trigger] self.sessions[i]).in_progress && (
            #[trigger] self.sessions[j]).in_progress ==> self.sessions[i].day_id
                != self.sessions[j].day_id
    }

    /// Whether every recorded set was last written before the given stamp.
    pub open spec fn written_before(self, clock: i64) -> bool {
        forall|i: int|
            0 <= i < self.performances.len() ==> (match (
            #[trigger] self.performances[i]).set.updated_at {
                Some(stamp) => stamp < clock,
                None => true,
            })
    }

    /// The number of rows in all tables.
    pub open spec fn size(self) -> nat {
        self.routines.len() + self.days.len() + self.exercises.len() + self.links.len()
            + self.sessions.len() + self.performances.len()
    }

    /// The tables after a statement.
    pub open spec fn apply(self, statement: Statement) -> Tables {
        match statement {
            Statement::DeleteLinksOfDay(day_id) => Tables {
                links: self.links.filter(|link: ExerciseToTrainingDay| link.day_id != day_id),
                ..self
            },
            Statement::DeleteDay(day_id) => Tables {
                days: self.days.filter(|day: TrainingDay| day.day_id != day_id),
                ..self
            },
            Statement::DeleteAll(Table::Links) => Tables { links: Seq::empty(), ..self },
            Statement::DeleteAll(Table::Sessions) => Tables { sessions: Seq::empty(), ..self },
            Statement::DeleteAll(Table::TrainingDays) => Tables { days: Seq::empty(), ..self },
            Statement::DeleteAll(Table::Exercises) => Tables { exercises: Seq::empty(), ..self },
            Statement::DeleteAll(Table::Routines) => Tables { routines: Seq::empty(), ..self },
            Statement::DeleteAll(Table::Performances) => Tables {
                performances: Seq::empty(),
                ..self
            },
        }
    }

    /// The number of rows that a statement affects: those that it deletes.
    pub open spec fn affected(self, statement: Statement) -> nat {
        (self.size() - self.apply(statement).size()) as nat
    }

    /// The tables after the statements of a plan, in their order.
    pub open spec fn apply_all(self, plan: Seq<Statement>) -> Tables
        decreases plan.len(),
    {
        if plan.len() == 0 {
            self
        } else {
            self.apply_all(plan.drop_last()).apply(plan.last())
        }
    }

    /// The rows that each statement of a plan affects when the plan runs on
    /// these tables.
    pub open spec fn affected_by(self, plan: Seq<Statement>) -> Seq<u64> {
        Seq::new(
            plan.len(),
            |i: int| self.apply_all(plan.take(i)).affected(plan[i]) as u64,
        )
    }

    /// The training day with the identifier, if there is one.
    pub open spec fn day(self, day_id: u128) -> Option<TrainingDay> {
        first_row(self.days, |day: TrainingDay| day.day_id == day_id)
    }

    /// Whether the training day with the identifier exists and belongs to the
    /// routine.
    pub open spec fn day_in_routine(self, day_id: u128, routine_id: u128) -> bool {
        first_index(
            self.days,
            |day: TrainingDay| day.day_id == day_id && day.routine_id == routine_id,
        ) is Some
    }

    /// The sessions of the training days of a routine, in the order of
    /// insertion.
    pub open spec fn sessions_of_routine(self, routine_id: u128) -> Seq<Session> {
        self.sessions.filter(|session: Session| self.day_in_routine(session.day_id, routine_id))
    }

    /// The first session in progress among the sessions of the training days
    /// of a routine, if there is one.
    pub open spec fn session_in_progress(self, routine_id: u128) -> Option<Session> {
        first_row(
            self.sessions,
            |session: Session|
                session.in_progress && self.day_in_routine(session.day_id, routine_id),
        )
    }

    /// The exercise with the identifier, if there is one.
    pub open spec fn exercise(self, exercise_id: u128) -> Option<Exercise> {
        first_row(self.exercises, |exercise: Exercise| exercise.exercise_id == exercise_id)
    }

    /// The links of a training day, in the order of insertion.
    pub open spec fn links_of_day(self, day_id: u128) -> Seq<ExerciseToTrainingDay> {
        self.links.filter(|link: ExerciseToTrainingDay| link.day_id == day_id)
    }

    /// The exercises linked to a training day, in the order of the links. A
    /// link whose exercise does not exist contributes nothing.
    pub open spec fn exercises_of_day(self, day_id: u128) -> Seq<ExerciseWithLinkId> {
        linked_exercises(self.links, self.exercises, day_id)
    }

    /// The row that joins a training day with one of its links, or with none.
    /// The exercise columns are present where the link's exercise exists.
    pub open spec fn day_row(self, day: TrainingDay, link: Option<ExerciseToTrainingDay>)
        -> TrainingDayWithExercisesQuery {
        let exercise = match link {
            Some(link) => self.exercise(link.exercise_id),
            None => None,
        };
        TrainingDayWithExercisesQuery {
            day_id: day.day_id,
            routine_id: day.routine_id,
            link_id: match link {
                Some(link) => Some(link.link_id),
                None => None,
            },
            exercise_id: match exercise {
                Some(exercise) => Some(exercise.exercise_id),
                None => None,
            },
            day_name: day.day_name,
            exercise_name: match exercise {
                Some(exercise) => Some(exercise.exercise_name),
                None => None,
            },
            exercise_description: match exercise {
                Some(exercise) => Some(exercise.exercise_description),
                None => None,
            },
            created_at: day.created_at,
            updated_at: day.updated_at,
        }
    }

    /// The rows of one training day in the join with its links: one row per
    /// link, in the order of the links, or a single row without a link.
    pub open spec fn rows_of_day(self, day: TrainingDay) -> Seq<TrainingDayWithExercisesQuery> {
        let links = self.links_of_day(day.day_id);
        if links.len() == 0 {
            seq![self.day_row(day, None)]
        } else {
            links.map_values(|link: ExerciseToTrainingDay| self.day_row(day, Some(link)))
        }
    }

    /// The rows of the given training days, day after day.
    pub open spec fn rows_of_days(self, days: Seq<TrainingDay>) -> Seq<
        TrainingDayWithExercisesQuery,
    >
        decreases days.len(),
    {
        if days.len() == 0 {
            Seq::empty()
        } else {
            self.rows_of_days(days.drop_last()) + self.rows_of_day(days.last())
        }
    }

    /// The join of the training days of a routine with their links and
    /// exercises.
    pub open spec fn day_rows(self, routine_id: u128) -> Seq<TrainingDayWithExercisesQuery> {
        self.rows_of_days(self.days.filter(|day: TrainingDay| day.routine_id == routine_id))
    }

    /// A training day with the exercises that its rows in the join carry, in
    /// the order of its links.
    pub open spec fn day_with_exercises(self, day: TrainingDay) -> TrainingDayWithExercisesView {
        TrainingDayWithExercisesView {
            day_id: day.day_id,
            routine_id: day.routine_id,
            day_name: day.day_name,
            exercises: Some(
                self.rows_of_day(day).filter_map(
                    |row: TrainingDayWithExercisesQuery| row.exercise(),
                ),
            ),
            created_at: day.created_at,
            updated_at: day.updated_at,
        }
    }

    /// A session with the exercises that its rows in the join carry, in the
    /// order of the links of its day.
    pub open spec fn session_with_exercises(self, session: Session) -> SessionWithExercisesView {
        SessionWithExercisesView {
            session_id: session.session_id,
            day_id: session.day_id,
            day_name: session.day_name,
            in_progress: session.in_progress,
            exercises: self.rows_of_session(session).filter_map(
                |row: SessionsWithExercisesQuery| row.exercise(),
            ),
            created_at: session.created_at,
            updated_at: session.updated_at,
        }
    }

    /// The row that joins a session with one of the links of its day, or with
    /// none. The exercise columns are present where the link's exercise
    /// exists.
    pub open spec fn session_row(self, session: Session, link: Option<ExerciseToTrainingDay>)
        -> SessionsWithExercisesQuery {
        let exercise = match link {
            Some(link) => self.exercise(link.exercise_id),
            None => None,
        };
        SessionsWithExercisesQuery {
            session_id: session.session_id,
            day_id: session.day_id,
            day_name: session.day_name,
            in_progress: session.in_progress,
            exercise_id: match exercise {
                Some(exercise) => Some(exercise.exercise_id),
                None => None,
            },
            exercise_name: match exercise {
                Some(exercise) => Some(exercise.exercise_name),
                None => None,
            },
            exercise_description: match exercise {
                Some(exercise) => Some(exercise.exercise_description),
                None => None,
            },
            link_id: match link {
                Some(link) => Some(link.link_id),
                None => None,
            },
            created_at: session.created_at,
            updated_at: session.updated_at,
        }
    }

    /// The links that the join of a session reaches: those of its training
    /// day, if the day exists.
    pub open spec fn links_of_session(self, session: Session) -> Seq<ExerciseToTrainingDay> {
        if has_id(self.days, session.day_id) {
            self.links_of_day(session.day_id)
        } else {
            Seq::empty()
        }
    }

    /// The rows of one session in the join with the links of its day: one row
    /// per link, in the order of the links, or a single row without a link.
    pub open spec fn rows_of_session(self, session: Session) -> Seq<SessionsWithExercisesQuery> {
        let links = self.links_of_session(session);
        if links.len() == 0 {
            seq![self.session_row(session, None)]
        } else {
            links.map_values(|link: ExerciseToTrainingDay| self.session_row(session, Some(link)))
        }
    }

    /// The rows of the given sessions, session after session.
    pub open spec fn rows_of_sessions(self, sessions: Seq<Session>) -> Seq<
        SessionsWithExercisesQuery,
    >
        decreases sessions.len(),
    {
        if sessions.len() == 0 {
            Seq::empty()
        } else {
            self.rows_of_sessions(sessions.drop_last()) + self.rows_of_session(sessions.last())
        }
    }

    /// The join of the sessions of a training day with the links of the day
    /// and their exercises.
    pub open spec fn session_rows(self, day_id: u128) -> Seq<SessionsWithExercisesQuery> {
        self.rows_of_sessions(self.sessions.filter(|session: Session| session.day_id == day_id))
    }

    /// Whether a session of the training day is in progress.
    pub open spec fn in_progress(self, day_id: u128) -> bool {
        exists|i: int|
            0 <= i < self.sessions.len() && (#[trigger] self.sessions[i]).day_id == day_id
                && self.sessions[i].in_progress
    }
}

/// The exercise that a link puts under its training day, if the exercise is
/// among `exercises`. It carries the stamps of the exercise.
pub open spec fn linked_exercise(exercises: Seq<Exercise>, link: ExerciseToTrainingDay) -> Option<
    ExerciseWithLinkId,
> {
    match first_row(exercises, |exercise: Exercise| exercise.exercise_id == link.exercise_id) {
        Some(exercise) => Some(
            ExerciseWithLinkId {
                exercise_id: exercise.exercise_id,
                link_id: link.link_id,
                exercise_name: exercise.exercise_name,
                exercise_description: exercise.exercise_description,
                created_at: exercise.created_at,
                updated_at: exercise.updated_at,
            },
        ),
        None => None,
    }
}

/// The exercises that the links of a training day put under it, in the order
/// of the links.
pub open spec fn linked_exercises(
    links: Seq<ExerciseToTrainingDay>,
    exercises: Seq<Exercise>,
    day_id: u128,
) -> Seq<ExerciseWithLinkId> {
    links.filter(|link: ExerciseToTrainingDay| link.day_id == day_id).filter_map(
        |link: ExerciseToTrainingDay| linked_exercise(exercises, link),
    )
}

/// Whether two recorded sets have the same natural key: session, exercise
/// and set number.
pub open spec fn same_set(left: SetPerformanceRow, right: SetPerformanceRow) -> bool {
    &&& left.session_id == right.session_id
    &&& left.exercise_id == right.exercise_id
    &&& left.set.set_number == right.set.set_number
}

impl StoreView {
    /// The invariant of the store: identifiers are distinct and were all
    /// given out by the counter, recorded sets are unique by their natural
    /// key and were written before now, and no training day has two sessions
    /// in progress.
    pub open spec fn wf(self) -> bool {
        &&& 1 <= self.next_id
        &&& 0 <= self.clock
        &&& self.tables.ids_in_order(self.next_id)
        &&& self.tables.sets_are_unique()
        &&& self.tables.one_session_per_day()
        &&& self.tables.written_before(self.clock)
    }

    /// Whether the store has no identifier or stamp left to give.
    pub open spec fn exhausted(self) -> bool {
        self.next_id == u128::MAX || self.clock == i64::MAX
    }

    /// The store with these tables after one write: the identifier and the
    /// stamp of now are used up.
    pub open spec fn written(self, tables: Tables) -> StoreView {
        StoreView {
            tables,
            next_id: (self.next_id + 1) as u128,
            clock: (self.clock + 1) as i64,
            fault: self.fault,
        }
    }

    /// The routine that an insert creates now.
    pub open spec fn new_routine(self, create: CreateRoutine) -> Routine {
        Routine {
            routine_id: self.next_id,
            name: create.name,
            description: create.description,
            is_active: create.is_active,
            created_at: Some(self.clock),
            updated_at: Some(self.clock),
        }
    }

    /// The training day that an insert creates now.
    pub open spec fn new_day(self, create: CreateTrainingDay) -> TrainingDay {
        TrainingDay {
            day_id: self.next_id,
            routine_id: create.routine_id,
            day_name: create.day_name,
            created_at: Some(self.clock),
            updated_at: Some(self.clock),
        }
    }

    /// The exercise that an insert creates now.
    pub open spec fn new_exercise(self, create: CreateExercise) -> Exercise {
        Exercise {
            exercise_id: self.next_id,
            exercise_name: create.exercise_name,
            exercise_description: create.exercise_description,
            created_at: Some(self.clock),
            updated_at: Some(self.clock),
        }
    }

    /// A stored routine with the name, the description and the active flag of
    /// `change`; its identifier and its stamps stay.
    pub open spec fn changed_routine(stored: Routine, change: Routine) -> Routine {
        Routine {
            name: change.name,
            description: change.description,
            is_active: change.is_active,
            ..stored
        }
    }

    /// The recorded set that an insert creates now.
    pub open spec fn new_set(
        self,
        session_id: u128,
        exercise_id: u128,
        payload: SetPerformancePayload,
    ) -> SetPerformanceRow {
        SetPerformanceRow {
            session_id,
            exercise_id,
            set: SetPerformance {
                performance_id: self.next_id,
                weight_bits: payload.weight_bits,
                reps: payload.reps,
                set_number: payload.set_number,
                rir: payload.rir,
                created_at: Some(self.clock),
                updated_at: Some(self.clock),
            },
        }
    }

    /// A stored set with the weight, the repetitions and the repetitions in
    /// reserve of the payload, written now; its identifier, its key and the
    /// stamp of its creation stay.
    pub open spec fn rewritten_set(self, stored: SetPerformanceRow, payload: SetPerformancePayload)
        -> SetPerformanceRow {
        SetPerformanceRow {
            set: SetPerformance {
                weight_bits: payload.weight_bits,
                reps: payload.reps,
                rir: payload.rir,
                updated_at: Some(self.clock),
                ..stored.set
            },
            ..stored
        }
    }

    /// The store with these tables after a write that used the stamp of now
    /// and no identifier.
    pub open spec fn rewritten(self, tables: Tables) -> StoreView {
        StoreView { tables, clock: (self.clock + 1) as i64, ..self }
    }

    /// The session that an insert creates now: in progress, with the name
    /// that the training day has now.
    pub open spec fn new_session(self, day_id: u128, day_name: String) -> Session {
        Session {
            session_id: self.next_id,
            day_id,
            day_name,
            in_progress: true,
            created_at: Some(self.clock),
            updated_at: Some(self.clock),
        }
    }

    /// The store after the session was inserted.
    pub open spec fn with_session(self, session: Session) -> StoreView {
        self.written(Tables { sessions: self.tables.sessions.push(session), ..self.tables })
    }

    /// Whether a session of the training day can start: no session of the day
    /// is in progress, the day exists, and the store is not exhausted.
    pub open spec fn can_start(self, day_id: u128) -> bool {
        &&& !self.tables.in_progress(day_id)
        &&& self.tables.day(day_id) is Some
        &&& !self.exhausted()
    }

    /// The store after a session of the training day was asked to start: the
    /// new session is added where it can start, and nothing changes where it
    /// cannot.
    pub open spec fn after_start(self, day_id: u128) -> StoreView {
        if self.can_start(day_id) {
            self.with_session(self.new_session(day_id, self.tables.day(day_id)->0.day_name))
        } else {
            self
        }
    }

    /// Whether the start of a session of the training day stands where
    /// `state` says, given the store before the start and the store now, and
    /// is about to put `query`.
    pub open spec fn starting(
        self,
        now: StoreView,
        day_id: u128,
        state: StartSession,
        query: SessionQuery,
    ) -> bool {
        match state {
            StartSession::Checking { day_id: of } => {
                &&& of == day_id
                &&& query == SessionQuery::InProgress(day_id)
                &&& now == self
            },
            StartSession::Naming { day_id: of } => {
                &&& of == day_id
                &&& query == SessionQuery::DayName(day_id)
                &&& now == self
                &&& !self.tables.in_progress(day_id)
            },
            StartSession::Inserting { day_id: of } => {
                &&& of == day_id
                &&& now == self
                &&& !self.tables.in_progress(day_id)
                &&& self.tables.day(day_id) matches Some(day)
                &&& query == SessionQuery::Insert { day_id, day_name: day.day_name }
            },
            StartSession::Listing { session } => {
                &&& !self.tables.in_progress(day_id)
                &&& !self.exhausted()
                &&& self.tables.day(day_id) matches Some(day)
                &&& session == self.new_session(day_id, day.day_name)
                &&& now == self.with_session(session)
                &&& query == SessionQuery::Exercises(day_id)
            },
            StartSession::Finished => false,
        }
    }

    /// Whether a transaction over a plan of `steps` statements fails as
    /// arranged: the failure hits the begin, one of the statements, or the
    /// commit.
    pub open spec fn transaction_fails(self, steps: nat) -> bool {
        self.fault matches Some(left) && left < steps + 2
    }

    /// The error of a transaction over a plan of `steps` statements that
    /// fails as arranged.
    pub open spec fn is_transaction_error(self, steps: nat, error: TransactionError) -> bool {
        match self.fault {
            Some(left) => if left == 0 {
                error matches TransactionError::Begin(cause) && cause@ == fault_text()
            } else if left <= steps {
                error matches TransactionError::Statement { index, cause } && index == left - 1
                    && cause@ == fault_text()
            } else {
                error matches TransactionError::Commit(cause) && cause@ == fault_text()
            },
            None => false,
        }
    }

    /// Whether a transaction over `plan` stands where `state` says, given the
    /// store before the transaction, the store now and the tables saved at
    /// the begin, and is about to perform `command`.
    pub open spec fn running(
        self,
        now: StoreView,
        plan: Seq<Statement>,
        saved: Option<Tables>,
        state: TransactionView,
        command: Command,
    ) -> bool {
        &&& now.next_id == self.next_id
        &&& now.clock == self.clock
        &&& match state {
            TransactionView::Beginning { steps } => {
                &&& steps == plan.len()
                &&& command == Command::Begin
                &&& now == self
                &&& saved is None
            },
            TransactionView::Executing { steps, index, affected } => {
                &&& steps == plan.len()
                &&& index < plan.len()
                &&& command == Command::Execute(index)
                &&& saved == Some(self.tables)
                &&& now.tables == self.tables.apply_all(plan.take(index as int))
                &&& affected == self.tables.affected_by(plan).take(index as int)
                &&& !(self.fault matches Some(left) && left <= index)
                &&& now.fault == fault_after(self.fault, (index + 1) as nat)
            },
            TransactionView::Committing { affected } => {
                &&& command == Command::Commit
                &&& saved == Some(self.tables)
                &&& now.tables == self.tables.apply_all(plan)
                &&& affected == self.tables.affected_by(plan)
                &&& !(self.fault matches Some(left) && left <= plan.len())
                &&& now.fault == fault_after(self.fault, (plan.len() + 1) as nat)
            },
            TransactionView::RollingBack { index, cause } => {
                &&& command == Command::Rollback
                &&& saved == Some(self.tables)
                &&& index < plan.len()
                &&& self.fault matches Some(left)
                &&& left == index + 1
                &&& now.fault is None
                &&& cause@ == fault_text()
            },
            TransactionView::Finished => false,
        }
    }

    /// The number of writes that the store can still stamp and identify.
    pub open spec fn capacity(self) -> nat {
        if u128::MAX - self.next_id <= i64::MAX - self.clock {
            (u128::MAX - self.next_id) as nat
        } else {
            (i64::MAX - self.clock) as nat
        }
    }

    /// The store after `count` more writes that left these tables.
    pub open spec fn written_times(self, tables: Tables, count: nat) -> StoreView {
        StoreView {
            tables,
            next_id: (self.next_id + count) as u128,
            clock: (self.clock + count) as i64,
            fault: self.fault,
        }
    }

    /// The training days that a batch creates from now on: each item gets the
    /// identifier and the stamp that follow those of the item before it.
    pub open spec fn batch_of_days(self, items: Seq<CreateTrainingDay>) -> Seq<TrainingDay> {
        Seq::new(
            items.len(),
            |i: int|
                TrainingDay {
                    day_id: (self.next_id + i) as u128,
                    routine_id: items[i].routine_id,
                    day_name: items[i].day_name,
                    created_at: Some((self.clock + i) as i64),
                    updated_at: Some((self.clock + i) as i64),
                },
        )
    }

    /// The exercises that a batch creates from now on: each item gets the
    /// identifier and the stamp that follow those of the item before it.
    pub open spec fn batch_of_exercises(self, items: Seq<CreateExercise>) -> Seq<Exercise> {
        Seq::new(
            items.len(),
            |i: int|
                Exercise {
                    exercise_id: (self.next_id + i) as u128,
                    exercise_name: items[i].exercise_name,
                    exercise_description: items[i].exercise_description,
                    created_at: Some((self.clock + i) as i64),
                    updated_at: Some((self.clock + i) as i64),
                },
        )
    }

    /// The number of items of a batch that are inserted: all of them, or as
    /// many as the store has capacity for.
    pub open spec fn inserted_of(self, items: nat) -> nat {
        if items <= self.capacity() {
            items
        } else {
            self.capacity()
        }
    }

    /// Whether a bulk creation of training days stands where `state` and
    /// `step` say, given the store before the batch and the store now.
    pub open spec fn creating_days(
        self,
        now: StoreView,
        items: Seq<CreateTrainingDay>,
        state: BulkInsertView<TrainingDay>,
        step: BulkStepView<TrainingDay>,
    ) -> bool {
        let batch = self.batch_of_days(items);
        match state {
            BulkInsertView::Inserting { total, created } => {
                &&& total == items.len()
                &&& created.len() < items.len()
                &&& created.len() <= self.capacity()
                &&& step == BulkStepView::<TrainingDay>::Insert(created.len() as usize)
                &&& created == batch.take(created.len() as int)
                &&& now == self.written_times(
                    Tables { days: self.tables.days + created, ..self.tables },
                    created.len(),
                )
            },
            BulkInsertView::Finished => {
                let done = self.inserted_of(items.len());
                &&& now == self.written_times(
                    Tables { days: self.tables.days + batch.take(done as int), ..self.tables },
                    done,
                )
                &&& if items.len() <= self.capacity() {
                    step == BulkStepView::Created(batch)
                } else {
                    step matches BulkStepView::Failed(error) && error.says(exhausted_text())
                }
            },
        }
    }

    /// Whether a bulk creation of exercises stands where `state` and `step`
    /// say, given the store before the batch and the store now.
    pub open spec fn creating_exercises(
        self,
        now: StoreView,
        items: Seq<CreateExercise>,
        state: BulkInsertView<Exercise>,
        step: BulkStepView<Exercise>,
    ) -> bool {
        let batch = self.batch_of_exercises(items);
        match state {
            BulkInsertView::Inserting { total, created } => {
                &&& total == items.len()
                &&& created.len() < items.len()
                &&& created.len() <= self.capacity()
                &&& step == BulkStepView::<Exercise>::Insert(created.len() as usize)
                &&& created == batch.take(created.len() as int)
                &&& now == self.written_times(
                    Tables { exercises: self.tables.exercises + created, ..self.tables },
                    created.len(),
                )
            },
            BulkInsertView::Finished => {
                let done = self.inserted_of(items.len());
                &&& now == self.written_times(
                    Tables {
                        exercises: self.tables.exercises + batch.take(done as int),
                        ..self.tables
                    },
                    done,
                )
                &&& if items.len() <= self.capacity() {
                    step == BulkStepView::Created(batch)
                } else {
                    step matches BulkStepView::Failed(error) && error.says(exhausted_text())
                }
            },
        }
    }

    /// The position of the session in progress that has the identifier, if
    /// there is one.
    pub open spec fn session_to_end(self, session_id: u128) -> Option<int> {
        first_index(
            self.tables.sessions,
            |session: Session| session.session_id == session_id && session.in_progress,
        )
    }

    /// The store after the session with the identifier was asked to end: the
    /// session in progress with that identifier is in progress no more;
    /// without such a session nothing changes.
    pub open spec fn after_end(self, session_id: u128) -> StoreView {
        match self.session_to_end(session_id) {
            Some(at) => StoreView {
                tables: Tables {
                    sessions: self.tables.sessions.update(
                        at,
                        Session { in_progress: false, ..self.tables.sessions[at] },
                    ),
                    ..self.tables
                },
                ..self
            },
            None => self,
        }
    }

    /// What ending the session with the identifier answers.
    pub open spec fn end_outcome(self, session_id: u128) -> Result<u128, SessionError> {
        match self.session_to_end(session_id) {
            Some(_) => Ok(session_id),
            None => Err(SessionError::NotFound),
        }
    }

    /// The position of the recorded set with the natural key, if there is one.
    pub open spec fn set_to_rewrite(self, session_id: u128, exercise_id: u128, set_number: i16)
        -> Option<int> {
        first_index(
            self.tables.performances,
            |row: SetPerformanceRow|
                row.session_id == session_id && row.exercise_id == exercise_id
                    && row.set.set_number == set_number,
        )
    }

    /// The set that recording hands out: the stored set rewritten, or a new
    /// set; nothing when the store is exhausted.
    pub open spec fn record_outcome(
        self,
        session_id: u128,
        exercise_id: u128,
        payload: SetPerformancePayload,
    ) -> Option<SetPerformance> {
        match self.set_to_rewrite(session_id, exercise_id, payload.set_number) {
            Some(at) => if self.clock == i64::MAX {
                None
            } else {
                Some(self.rewritten_set(self.tables.performances[at], payload).set)
            },
            None => if self.exhausted() {
                None
            } else {
                Some(self.new_set(session_id, exercise_id, payload).set)
            },
        }
    }

    /// The store after recording a set: the stored set with the same natural
    /// key is rewritten in its place, or a new set is added at the end;
    /// nothing changes when the store is exhausted.
    pub open spec fn after_record(
        self,
        session_id: u128,
        exercise_id: u128,
        payload: SetPerformancePayload,
    ) -> StoreView {
        match self.set_to_rewrite(session_id, exercise_id, payload.set_number) {
            Some(at) => if self.clock == i64::MAX {
                self
            } else {
                self.rewritten(
                    Tables {
                        performances: self.tables.performances.update(
                            at,
                            self.rewritten_set(self.tables.performances[at], payload),
                        ),
                        ..self.tables
                    },
                )
            },
            None => if self.exhausted() {
                self
            } else {
                self.written(
                    Tables {
                        performances: self.tables.performances.push(
                            self.new_set(session_id, exercise_id, payload),
                        ),
                        ..self.tables
                    },
                )
            },
        }
    }

    /// The link that an insert creates now.
    pub open spec fn new_link(self, exercise_id: u128, day_id: u128) -> ExerciseToTrainingDay {
        ExerciseToTrainingDay {
            link_id: self.next_id,
            exercise_id,
            day_id,
            created_at: Some(self.clock),
            updated_at: Some(self.clock),
        }
    }
}

/// Selecting recorded sets keeps them unique by their natural key, and keeps
/// them written before the stamp that bounded them.
proof fn lemma_filter_keeps_sets(
    rows: Seq<SetPerformanceRow>,
    kept: spec_fn(SetPerformanceRow) -> bool,
    clock: i64,
    tables: Tables,
)
    requires
        (Tables { performances: rows, ..tables }).sets_are_unique(),
        (Tables { performances: rows, ..tables }).written_before(clock),
    ensures
        (Tables { performances: rows.filter(kept), ..tables }).sets_are_unique(),
        (Tables { performances: rows.filter(kept), ..tables }).written_before(clock),
    decreases rows.len(),
{
    reveal(Seq::filter);
    if rows.len() > 0 {
        let head = rows.drop_last();
        let last = rows.last();
        let chosen = head.filter(kept);
        assert forall|i: int, j: int| 0 <= i < j < head.len() implies !same_set(
            #[trigger] head[i],
            #[trigger] head[j],
        ) by {
            assert(head[i] == rows[i]);
            assert(head[j] == rows[j]);
        }
        assert forall|i: int| 0 <= i < head.len() implies (match (#[trigger] head[i]).set.updated_at {
            Some(stamp) => stamp < clock,
            None => true,
        }) by {
            assert(head[i] == rows[i]);
        }
        lemma_filter_keeps_sets(head, kept, clock, tables);
        let whole = rows.filter(kept);
        assert forall|i: int, j: int| 0 <= i < j < whole.len() implies !same_set(
            #[trigger] whole[i],
            #[trigger] whole[j],
        ) by {
            assert(whole[i] == chosen[i]);
            if j < chosen.len() {
                assert(whole[j] == chosen[j]);
            } else {
                crate::rows::lemma_filter_within(head, kept, i);
                let k = choose|k: int| 0 <= k < head.len() && #[trigger] head[k] == chosen[i];
                assert(rows[k] == head[k]);
                assert(rows[rows.len() - 1] == last);
            }
        }
        assert forall|i: int| 0 <= i < whole.len() implies (match (#[trigger] whole[i]).set.updated_at {
            Some(stamp) => stamp < clock,
            None => true,
        }) by {
            if i < chosen.len() {
                assert(whole[i] == chosen[i]);
            } else {
                assert(whole[i] == rows[rows.len() - 1]);
            }
        }
    }
}

/// Selecting rows drops a row exactly when some row fails the test.
proof fn lemma_filter_drops<T>(rows: Seq<T>, kept: spec_fn(T) -> bool)
    ensures
        rows.filter(kept).len() <= rows.len(),
        rows.filter(kept).len() < rows.len() <==> exists|i: int|
            0 <= i < rows.len() && !kept(#[trigger] rows[i]),
    decreases rows.len(),
{
    reveal(Seq::filter);
    if rows.len() > 0 {
        let head = rows.drop_last();
        lemma_filter_drops(head, kept);
        if exists|i: int| 0 <= i < head.len() && !kept(#[trigger] head[i]) {
            let i = choose|i: int| 0 <= i < head.len() && !kept(#[trigger] head[i]);
            assert(!kept(rows[i]));
        }
        if exists|i: int| 0 <= i < rows.len() && !kept(#[trigger] rows[i]) {
            let i = choose|i: int| 0 <= i < rows.len() && !kept(#[trigger] rows[i]);
            if i < head.len() {
                assert(!kept(head[i]));
            }
        }
        if !kept(rows.last()) {
            assert(!kept(rows[rows.len() - 1]));
        }
    }
}

/// The plan that deletes a training day leaves the other days and the links
/// of the other days, and its second statement affects a row exactly when the
/// day exists.
pub proof fn lemma_day_deletion(tables: Tables, day_id: u128)
    requires
        tables.days.len() <= u64::MAX,
    ensures
        tables.apply_all(day_deletion(day_id)) == (Tables {
            links: tables.links.filter(|link: ExerciseToTrainingDay| link.day_id != day_id),
            days: tables.days.filter(|day: TrainingDay| day.day_id != day_id),
            ..tables
        }),
        deleted_day(day_id, tables.affected_by(day_deletion(day_id))) == if has_id(
            tables.days,
            day_id,
        ) {
            Some(day_id)
        } else {
            None
        },
{
    let plan = day_deletion(day_id);
    let first = seq![Statement::DeleteLinksOfDay(day_id)];
    assert(plan.drop_last() =~= first);
    assert(first.drop_last() =~= Seq::<Statement>::empty());
    assert(plan.take(1) =~= first);
    reveal_with_fuel(Tables::apply_all, 3);
    let between = tables.apply(Statement::DeleteLinksOfDay(day_id));
    assert(tables.apply_all(first) == between);
    let kept = |day: TrainingDay| day.day_id != day_id;
    lemma_filter_drops(tables.days, kept);
    if has_id(tables.days, day_id) {
        let i = choose|i: int| 0 <= i < tables.days.len() && (#[trigger] tables.days[i]).id() == day_id;
        assert(!kept(tables.days[i]));
    }
    if exists|i: int| 0 <= i < tables.days.len() && !kept(#[trigger] tables.days[i]) {
        let i = choose|i: int| 0 <= i < tables.days.len() && !kept(#[trigger] tables.days[i]);
        assert(tables.days[i].id() == day_id);
    }
    assert(tables.affected_by(plan)[1] == between.affected(Statement::DeleteDay(day_id)) as u64);
}

/// The plan that resets all data leaves every table empty.
pub proof fn lemma_data_reset(tables: Tables)
    ensures
        tables.apply_all(data_reset()) == Tables::empty(),
{
    let p6 = data_reset();
    let p5 = p6.drop_last();
    let p4 = p5.drop_last();
    let p3 = p4.drop_last();
    let p2 = p3.drop_last();
    let p1 = p2.drop_last();
    assert(p1.drop_last() =~= Seq::<Statement>::empty());
    reveal_with_fuel(Tables::apply_all, 7);
    assert(tables.apply_all(p1) == tables.apply(Statement::DeleteAll(Table::Links)));
    assert(tables.apply_all(p2) == tables.apply_all(p1).apply(Statement::DeleteAll(Table::Sessions)));
    assert(tables.apply_all(p3) == tables.apply_all(p2).apply(
        Statement::DeleteAll(Table::TrainingDays),
    ));
    assert(tables.apply_all(p4) == tables.apply_all(p3).apply(
        Statement::DeleteAll(Table::Exercises),
    ));
    assert(tables.apply_all(p5) == tables.apply_all(p4).apply(
        Statement::DeleteAll(Table::Routines),
    ));
    assert(tables.apply_all(p6) == tables.apply_all(p5).apply(
        Statement::DeleteAll(Table::Performances),
    ));
}

/// The text with which the deletion of a training day fails when the failure
/// that was arranged hits the command at this position of its transaction.
pub open spec fn day_deletion_failure(position: u64) -> Seq<char> {
    if position == 1 {
        "Error deleting day references from link table: "@ + fault_text()
    } else if position == 2 {
        "Error deleting day: "@ + fault_text()
    } else {
        fault_text()
    }
}

/// A table has a row with the identifier exactly when looking for the
/// identifier finds a position.
proof fn lemma_found_by_id<T: Row>(rows: Seq<T>, id: u128)
    ensures
        has_id(rows, id) <==> first_index(rows, |row: T| row.id() == id) is Some,
{
    lemma_first_index(rows, |row: T| row.id() == id);
    if has_id(rows, id) {
        let i = choose|i: int| 0 <= i < rows.len() && (#[trigger] rows[i]).id() == id;
        assert((|row: T| row.id() == id)(rows[i]));
    }
    if first_index(rows, |row: T| row.id() == id) is Some {
        let at = first_index(rows, |row: T| row.id() == id)->0;
        assert(rows[at].id() == id);
    }
}

/// The repository held in memory.
pub struct MemoryRepository {
    routines: Vec<Routine>,
    days: Vec<TrainingDay>,
    exercises: Vec<Exercise>,
    links: Vec<ExerciseToTrainingDay>,
    sessions: Vec<Session>,
    performances: Vec<SetPerformanceRow>,
    next_id: u128,
    clock: i64,
    fault: Option<u64>,
}

impl View for MemoryRepository {
    type V = StoreView;

    closed spec fn view(&self) -> StoreView {
        StoreView {
            tables: Tables {
                routines: self.routines@,
                days: self.days@,
                exercises: self.exercises@,
                links: self.links@,
                sessions: self.sessions@,
                performances: self.performances@,
            },
            next_id: self.next_id,
            clock: self.clock,
            fault: self.fault,
        }
    }
}

/// A copy of the six tables, kept while a transaction runs.
struct Snapshot {
    routines: Vec<Routine>,
    days: Vec<TrainingDay>,
    exercises: Vec<Exercise>,
    links: Vec<ExerciseToTrainingDay>,
    sessions: Vec<Session>,
    performances: Vec<SetPerformanceRow>,
}

impl View for Snapshot {
    type V = Tables;

    closed spec fn view(&self) -> Tables {
        Tables {
            routines: self.routines@,
            days: self.days@,
            exercises: self.exercises@,
            links: self.links@,
            sessions: self.sessions@,
            performances: self.performances@,
        }
    }
}

/// The view of the tables that may have been saved.
spec fn saved_tables(saved: Option<Snapshot>) -> Option<Tables> {
    match saved {
        Some(snapshot) => Some(snapshot@),
        None => None,
    }
}

fn fault_message() -> (text: String)
    ensures
        text@ == fault_text(),
{
    String::from_str("Injected fault")
}

fn exhausted_message() -> (text: String)
    ensures
        text@ == exhausted_text(),
{
    String::from_str("Identifier space exhausted")
}

impl MemoryRepository {
    /// An empty store. Its first identifier is 1 and its clock starts at 0.
    pub fn new() -> (store: Self)
        ensures
            store@.wf(),
            store@.tables == Tables::empty(),
            store@.next_id == 1,
            store@.clock == 0,
            store@.fault is None,
    {
        MemoryRepository {
            routines: Vec::new(),
            days: Vec::new(),
            exercises: Vec::new(),
            links: Vec::new(),
            sessions: Vec::new(),
            performances: Vec::new(),
            next_id: 1,
            clock: 0,
            fault: None,
        }
    }

    /// Takes the next identifier and the stamp of now, if the store has both
    /// left to give.
    fn issue(&mut self) -> (ticket: Option<(u128, i64)>)
        requires
            old(self)@.wf(),
        ensures
            old(self)@.exhausted() ==> ticket is None && final(self)@ == old(self)@,
            !old(self)@.exhausted() ==> ticket == Some((old(self)@.next_id, old(self)@.clock))
                && final(self)@ == old(self)@.written(old(self)@.tables),
            final(self)@.wf(),
    {
        if self.next_id == u128::MAX || self.clock == i64::MAX {
            None
        } else {
            let ticket = (self.next_id, self.clock);
            self.next_id = self.next_id + 1;
            self.clock = self.clock + 1;
            Some(ticket)
        }
    }

    /// Inserts a routine. It gets the next identifier and the stamp of now.
    /// Fails, and changes nothing, only when the store is exhausted.
    pub fn create_routine(&mut self, create: &CreateRoutine) -> (result: Result<
        Routine,
        RepositoryError,
    >)
        requires
            old(self)@.wf(),
        ensures
            final(self)@.wf(),
            match result {
                Ok(routine) => {
                    &&& !old(self)@.exhausted()
                    &&& routine == old(self)@.new_routine(*create)
                    &&& final(self)@ == old(self)@.written(
                        Tables {
                            routines: old(self)@.tables.routines.push(routine),
                            ..old(self)@.tables
                        },
                    )
                },
                Err(error) => {
                    &&& old(self)@.exhausted()
                    &&& error.says(exhausted_text())
                    &&& final(self)@ == old(self)@
                },
            },
    {
        match self.issue() {
            None => Err(RepositoryError::StoreFailure(exhausted_message())),
            Some((id, now)) => {
                let routine = Routine {
                    routine_id: id,
                    name: create.name.clone(),
                    description: create.description.clone(),
                    is_active: create.is_active,
                    created_at: Some(now),
                    updated_at: Some(now),
                };
                proof {
                    lemma_push_keeps_ids(self.routines@, routine, id);
                }
                self.routines.push(routine.clone());
                Ok(routine)
            },
        }
    }

    /// Inserts a training day under a routine. It gets the next identifier
    /// and the stamp of now. Fails, and changes nothing, only when the store
    /// is exhausted.
    pub fn create_training_day(&mut self, create: &CreateTrainingDay) -> (result: Result<
        TrainingDay,
        RepositoryError,
    >)
        requires
            old(self)@.wf(),
        ensures
            final(self)@.wf(),
            match result {
                Ok(day) => {
                    &&& !old(self)@.exhausted()
                    &&& day == old(self)@.new_day(*create)
                    &&& final(self)@ == old(self)@.written(
                        Tables { days: old(self)@.tables.days.push(day), ..old(self)@.tables },
                    )
                },
                Err(error) => {
                    &&& old(self)@.exhausted()
                    &&& error.says(exhausted_text())
                    &&& final(self)@ == old(self)@
                },
            },
    {
        match self.issue() {
            None => Err(RepositoryError::StoreFailure(exhausted_message())),
            Some((id, now)) => {
                let day = TrainingDay {
                    day_id: id,
                    routine_id: create.routine_id,
                    day_name: create.day_name.clone(),
                    created_at: Some(now),
                    updated_at: Some(now),
                };
                proof {
                    lemma_push_keeps_ids(self.days@, day, id);
                }
                self.days.push(day.clone());
                Ok(day)
            },
        }
    }

    /// Inserts an exercise. It gets the next identifier and the stamp of now.
    /// Fails, and changes nothing, only when the store is exhausted.
    pub fn create_exercise(&mut self, create: &CreateExercise) -> (result: Result<
        Exercise,
        RepositoryError,
    >)
        requires
            old(self)@.wf(),
        ensures
            final(self)@.wf(),
            match result {
                Ok(exercise) => {
                    &&& !old(self)@.exhausted()
                    &&& exercise == old(self)@.new_exercise(*create)
                    &&& final(self)@ == old(self)@.written(
                        Tables {
                            exercises: old(self)@.tables.exercises.push(exercise),
                            ..old(self)@.tables
                        },
                    )
                },
                Err(error) => {
                    &&& old(self)@.exhausted()
                    &&& error.says(exhausted_text())
                    &&& final(self)@ == old(self)@
                },
            },
    {
        match self.issue() {
            None => Err(RepositoryError::StoreFailure(exhausted_message())),
            Some((id, now)) => {
                let exercise = Exercise {
                    exercise_id: id,
                    exercise_name: create.exercise_name.clone(),
                    exercise_description: create.exercise_description.clone(),
                    created_at: Some(now),
                    updated_at: Some(now),
                };
                proof {
                    lemma_push_keeps_ids(self.exercises@, exercise, id);
                }
                self.exercises.push(exercise.clone());
                Ok(exercise)
            },
        }
    }

    /// Links an exercise to a training day. The link gets the next identifier
    /// and the stamp of now; the store does not ask whether the exercise and
    /// the day exist. Fails, and changes nothing, only when the store is
    /// exhausted.
    pub fn add_exercise_to_training_day(&mut self, exercise_id: u128, day_id: u128) -> (result:
        Result<ExerciseToTrainingDay, RepositoryError>)
        requires
            old(self)@.wf(),
        ensures
            final(self)@.wf(),
            match result {
                Ok(link) => {
                    &&& !old(self)@.exhausted()
                    &&& link == old(self)@.new_link(exercise_id, day_id)
                    &&& final(self)@ == old(self)@.written(
                        Tables { links: old(self)@.tables.links.push(link), ..old(self)@.tables },
                    )
                },
                Err(error) => {
                    &&& old(self)@.exhausted()
                    &&& error.says(exhausted_text())
                    &&& final(self)@ == old(self)@
                },
            },
    {
        match self.issue() {
            None => Err(RepositoryError::StoreFailure(exhausted_message())),
            Some((id, now)) => {
                let link = ExerciseToTrainingDay {
                    link_id: id,
                    exercise_id,
                    day_id,
                    created_at: Some(now),
                    updated_at: Some(now),
                };
                proof {
                    lemma_push_keeps_ids(self.links@, link, id);
                }
                self.links.push(link);
                Ok(link)
            },
        }
    }

    /// The training days of a routine, in the order of insertion.
    pub fn get_training_days(&self, routine_id: u128) -> (result: Result<
        Vec<TrainingDay>,
        RepositoryError,
    >)
        ensures
            result is Ok,
            result->Ok_0@ == self@.tables.days.filter(
                |day: TrainingDay| day.routine_id == routine_id,
            ),
    {
        let keep = |day: &TrainingDay| -> (keep: bool)
            ensures
                keep == (day.routine_id == routine_id),
            {
                day.routine_id == routine_id
            };
        Ok(select(&self.days, keep, Ghost(|day: TrainingDay| day.routine_id == routine_id)))
    }

    /// Every exercise, in the order of insertion.
    pub fn get_exercises(&self) -> (result: Result<Vec<Exercise>, RepositoryError>)
        ensures
            result is Ok,
            result->Ok_0@ == self@.tables.exercises,
    {
        Ok(copy_rows(&self.exercises))
    }

    /// Every link, in the order of insertion.
    pub fn get_link_table_data(&self) -> (result: Result<
        Vec<ExerciseToTrainingDay>,
        RepositoryError,
    >)
        ensures
            result is Ok,
            result->Ok_0@ == self@.tables.links,
    {
        Ok(copy_rows(&self.links))
    }

    /// The sessions of a training day, in the order of insertion.
    pub fn get_all_sessions_by_day_id(&self, day_id: u128) -> (result: Result<
        Vec<Session>,
        SessionError,
    >)
        ensures
            result is Ok,
            result->Ok_0@ == self@.tables.sessions.filter(
                |session: Session| session.day_id == day_id,
            ),
    {
        let keep = |session: &Session| -> (keep: bool)
            ensures
                keep == (session.day_id == day_id),
            {
                session.day_id == day_id
            };
        Ok(select(&self.sessions, keep, Ghost(|session: Session| session.day_id == day_id)))
    }

    /// Deletes the routine with the identifier. Fails with `NotFound`, and
    /// changes nothing, when there is no such routine.
    pub fn delete_routine(&mut self, routine_id: u128) -> (result: Result<u128, RepositoryError>)
        requires
            old(self)@.wf(),
        ensures
            final(self)@.wf(),
            has_id(old(self)@.tables.routines, routine_id) ==> result == Ok::<
                u128,
                RepositoryError,
            >(routine_id) && final(self)@ == (StoreView {
                tables: Tables {
                    routines: old(self)@.tables.routines.filter(
                        |routine: Routine| routine.routine_id != routine_id,
                    ),
                    ..old(self)@.tables
                },
                ..old(self)@
            }),
            !has_id(old(self)@.tables.routines, routine_id) ==> result == Err::<
                u128,
                RepositoryError,
            >(RepositoryError::NotFound) && final(self)@ == old(self)@,
    {
        let is_it = |routine: &Routine| -> (found: bool)
            ensures
                found == (routine.routine_id == routine_id),
            {
                routine.routine_id == routine_id
            };
        proof {
            lemma_found_by_id(self.routines@, routine_id);
        }
        match locate(&self.routines, is_it, Ghost(|routine: Routine| routine.id() == routine_id)) {
            None => Err(RepositoryError::NotFound),
            Some(_) => {
                let keep = |routine: &Routine| -> (keep: bool)
                    ensures
                        keep == (routine.routine_id != routine_id),
                    {
                        routine.routine_id != routine_id
                    };
                let ghost kept = |routine: Routine| routine.routine_id != routine_id;
                proof {
                    lemma_filter_keeps_distinct(self.routines@, kept);
                    lemma_filter_keeps_below(self.routines@, kept, self.next_id);
                }
                self.routines = select(&self.routines, keep, Ghost(kept));
                Ok(routine_id)
            },
        }
    }

    /// Deletes the link with the identifier: the exercise leaves the training
    /// day, and both stay. Fails with `NotFound`, and changes nothing, when
    /// there is no such link.
    pub fn remove_exercise_from_training_day(&mut self, link_id: u128) -> (result: Result<
        u128,
        RepositoryError,
    >)
        requires
            old(self)@.wf(),
        ensures
            final(self)@.wf(),
            has_id(old(self)@.tables.links, link_id) ==> result == Ok::<u128, RepositoryError>(
                link_id,
            ) && final(self)@ == (StoreView {
                tables: Tables {
                    links: old(self)@.tables.links.filter(
                        |link: ExerciseToTrainingDay| link.link_id != link_id,
                    ),
                    ..old(self)@.tables
                },
                ..old(self)@
            }),
            !has_id(old(self)@.tables.links, link_id) ==> result == Err::<u128, RepositoryError>(
                RepositoryError::NotFound,
            ) && final(self)@ == old(self)@,
    {
        let is_it = |link: &ExerciseToTrainingDay| -> (found: bool)
            ensures
                found == (link.link_id == link_id),
            {
                link.link_id == link_id
            };
        proof {
            lemma_found_by_id(self.links@, link_id);
        }
        match locate(&self.links, is_it, Ghost(|link: ExerciseToTrainingDay| link.id() == link_id)) {
            None => Err(RepositoryError::NotFound),
            Some(_) => {
                let keep = |link: &ExerciseToTrainingDay| -> (keep: bool)
                    ensures
                        keep == (link.link_id != link_id),
                    {
                        link.link_id != link_id
                    };
                let ghost kept = |link: ExerciseToTrainingDay| link.link_id != link_id;
                proof {
                    lemma_filter_keeps_distinct(self.links@, kept);
                    lemma_filter_keeps_below(self.links@, kept, self.next_id);
                }
                self.links = select(&self.links, keep, Ghost(kept));
                Ok(link_id)
            },
        }
    }

    /// Deletes the recorded set with the identifier. Fails with `NotFound`,
    /// and changes nothing, when there is no such set.
    pub fn remove_set_performance_from_session(&mut self, performance_id: u128) -> (result: Result<
        u128,
        SessionError,
    >)
        requires
            old(self)@.wf(),
        ensures
            final(self)@.wf(),
            has_id(old(self)@.tables.performances, performance_id) ==> result == Ok::<
                u128,
                SessionError,
            >(performance_id) && final(self)@ == (StoreView {
                tables: Tables {
                    performances: old(self)@.tables.performances.filter(
                        |row: SetPerformanceRow| row.set.performance_id != performance_id,
                    ),
                    ..old(self)@.tables
                },
                ..old(self)@
            }),
            !has_id(old(self)@.tables.performances, performance_id) ==> result == Err::<
                u128,
                SessionError,
            >(SessionError::NotFound) && final(self)@ == old(self)@,
    {
        let is_it = |row: &SetPerformanceRow| -> (found: bool)
            ensures
                found == (row.set.performance_id == performance_id),
            {
                row.set.performance_id == performance_id
            };
        proof {
            lemma_found_by_id(self.performances@, performance_id);
        }
        match locate(
            &self.performances,
            is_it,
            Ghost(|row: SetPerformanceRow| row.id() == performance_id),
        ) {
            None => Err(SessionError::NotFound),
            Some(_) => {
                let keep = |row: &SetPerformanceRow| -> (keep: bool)
                    ensures
                        keep == (row.set.performance_id != performance_id),
                    {
                        row.set.performance_id != performance_id
                    };
                let ghost kept = |row: SetPerformanceRow| row.set.performance_id != performance_id;
                proof {
                    lemma_filter_keeps_distinct(self.performances@, kept);
                    lemma_filter_keeps_below(self.performances@, kept, self.next_id);
                    lemma_filter_keeps_sets(self.performances@, kept, self.clock, self@.tables);
                }
                self.performances = select(&self.performances, keep, Ghost(kept));
                Ok(performance_id)
            },
        }
    }

    /// Changes the name, the description and the active flag of the routine
    /// that has the identifier of `routine`, and hands out the routine as it
    /// is stored then. Fails with `NotFound`, and changes nothing, when there
    /// is no such routine.
    pub fn update_routine(&mut self, routine: &Routine) -> (result: Result<
        Routine,
        RepositoryError,
    >)
        requires
            old(self)@.wf(),
        ensures
            final(self)@.wf(),
            match first_index(
                old(self)@.tables.routines,
                |stored: Routine| stored.routine_id == routine.routine_id,
            ) {
                Some(at) => {
                    let changed = StoreView::changed_routine(
                        old(self)@.tables.routines[at],
                        *routine,
                    );
                    &&& result == Ok::<Routine, RepositoryError>(changed)
                    &&& final(self)@ == (StoreView {
                        tables: Tables {
                            routines: old(self)@.tables.routines.update(at, changed),
                            ..old(self)@.tables
                        },
                        ..old(self)@
                    })
                },
                None => result == Err::<Routine, RepositoryError>(RepositoryError::NotFound)
                    && final(self)@ == old(self)@,
            },
    {
        let wanted = routine.routine_id;
        let is_it = |stored: &Routine| -> (found: bool)
            ensures
                found == (stored.routine_id == wanted),
            {
                stored.routine_id == wanted
            };
        let ghost passes = |stored: Routine| stored.routine_id == routine.routine_id;
        proof {
            lemma_first_index(self.routines@, passes);
        }
        match locate(&self.routines, is_it, Ghost(passes)) {
            None => Err(RepositoryError::NotFound),
            Some(at) => {
                let stored = &self.routines[at];
                let changed = Routine {
                    routine_id: stored.routine_id,
                    name: routine.name.clone(),
                    description: routine.description.clone(),
                    is_active: routine.is_active,
                    created_at: stored.created_at,
                    updated_at: stored.updated_at,
                };
                proof {
                    lemma_update_keeps_ids(self.routines@, at as int, changed, self.next_id);
                }
                self.routines.set(at, changed.clone());
                Ok(changed)
            },
        }
    }

    /// Whether a session of the training day is in progress.
    pub fn is_previous_session_in_progress(&self, day_id: u128) -> (result: Result<
        bool,
        SessionError,
    >)
        ensures
            result == Ok::<bool, SessionError>(self@.tables.in_progress(day_id)),
    {
        let is_it = |session: &Session| -> (found: bool)
            ensures
                found == (session.day_id == day_id && session.in_progress),
            {
                session.day_id == day_id && session.in_progress
            };
        let ghost passes = |session: Session| session.day_id == day_id && session.in_progress;
        proof {
            lemma_first_index(self.sessions@, passes);
            if self@.tables.in_progress(day_id) {
                let i = choose|i: int|
                    0 <= i < self.sessions@.len() && (#[trigger] self.sessions@[i]).day_id == day_id
                        && self.sessions@[i].in_progress;
                assert(passes(self.sessions@[i]));
            }
        }
        match locate(&self.sessions, is_it, Ghost(passes)) {
            None => Ok(false),
            Some(at) => {
                assert(passes(self.sessions@[at as int]));
                Ok(true)
            },
        }
    }

    /// Ends the session with the identifier, if it is in progress: it is in
    /// progress no more, and nothing else changes. Fails with `NotFound`, and
    /// changes nothing, when no session in progress has the identifier; so
    /// ending a session twice fails the second time.
    pub fn end_session(&mut self, session_id: u128) -> (result: Result<u128, SessionError>)
        requires
            old(self)@.wf(),
        ensures
            final(self)@.wf(),
            final(self)@ == old(self)@.after_end(session_id),
            result == old(self)@.end_outcome(session_id),
    {
        let is_it = |session: &Session| -> (found: bool)
            ensures
                found == (session.session_id == session_id && session.in_progress),
            {
                session.session_id == session_id && session.in_progress
            };
        let ghost passes = |session: Session|
            session.session_id == session_id && session.in_progress;
        proof {
            lemma_first_index(self.sessions@, passes);
        }
        let closed: u64 = match locate(&self.sessions, is_it, Ghost(passes)) {
            None => 0,
            Some(at) => {
                let stored = &self.sessions[at];
                let ended = Session {
                    session_id: stored.session_id,
                    day_id: stored.day_id,
                    day_name: stored.day_name.clone(),
                    in_progress: false,
                    created_at: stored.created_at,
                    updated_at: stored.updated_at,
                };
                let ghost before = self.sessions@;
                proof {
                    lemma_update_keeps_ids(before, at as int, ended, self.next_id);
                }
                self.sessions.set(at, ended);
                proof {
                    let after = self.sessions@;
                    assert forall|i: int, j: int|
                        0 <= i < j < after.len() && (#[trigger] after[i]).in_progress && (
                        #[trigger] after[j]).in_progress implies after[i].day_id
                        != after[j].day_id by {
                        assert(after[i] == before[i] && after[j] == before[j]);
                    }
                }
                1
            },
        };
        crate::session::end_session_outcome(session_id, closed)
    }

    /// Records a set of an exercise within a session. A set that is already
    /// recorded under the same session, exercise and set number is rewritten
    /// with the weight, the repetitions and the repetitions in reserve of the
    /// payload, and stamped anew; its identifier stays. Otherwise a set is
    /// inserted. The store does not ask whether the session exists or is in
    /// progress. Fails, and changes nothing, only when the store is
    /// exhausted.
    pub fn add_set_performance_to_session(
        &mut self,
        session_id: u128,
        exercise_id: u128,
        payload: &SetPerformancePayload,
    ) -> (result: Result<SetPerformance, SessionError>)
        requires
            old(self)@.wf(),
        ensures
            final(self)@.wf(),
            final(self)@ == old(self)@.after_record(session_id, exercise_id, *payload),
            match old(self)@.record_outcome(session_id, exercise_id, *payload) {
                Some(set) => result == Ok::<SetPerformance, SessionError>(set),
                None => result is Err && result->Err_0.says(exhausted_text()),
            },
    {
        let set_number = payload.set_number;
        let is_it = |row: &SetPerformanceRow| -> (found: bool)
            ensures
                found == (row.session_id == session_id && row.exercise_id == exercise_id
                    && row.set.set_number == set_number),
            {
                row.session_id == session_id && row.exercise_id == exercise_id && row.set.set_number
                    == set_number
            };
        let ghost passes = |row: SetPerformanceRow|
            row.session_id == session_id && row.exercise_id == exercise_id && row.set.set_number
                == payload.set_number;
        let ghost before = self.performances@;
        proof {
            lemma_first_index(before, passes);
        }
        match locate(&self.performances, is_it, Ghost(passes)) {
            Some(at) => {
                if self.clock == i64::MAX {
                    return Err(SessionError::Error(exhausted_message()));
                }
                let stored = self.performances[at];
                let row = SetPerformanceRow {
                    session_id: stored.session_id,
                    exercise_id: stored.exercise_id,
                    set: SetPerformance {
                        performance_id: stored.set.performance_id,
                        weight_bits: payload.weight_bits,
                        reps: payload.reps,
                        set_number: stored.set.set_number,
                        rir: payload.rir,
                        created_at: stored.set.created_at,
                        updated_at: Some(self.clock),
                    },
                };
                proof {
                    lemma_update_keeps_ids(before, at as int, row, self.next_id);
                }
                self.performances.set(at, row);
                self.clock = self.clock + 1;
                proof {
                    let after = self.performances@;
                    assert forall|i: int, j: int| 0 <= i < j < after.len() implies !same_set(
                        #[trigger] after[i],
                        #[trigger] after[j],
                    ) by {
                        assert(!same_set(before[i], before[j]));
                    }
                    assert forall|i: int| 0 <= i < after.len() implies (match (
                    #[trigger] after[i]).set.updated_at {
                        Some(stamp) => stamp < self.clock,
                        None => true,
                    }) by {
                        if i != at {
                            assert(after[i] == before[i]);
                        }
                    }
                }
                Ok(row.set)
            },
            None => {
                match self.issue() {
                    None => Err(SessionError::Error(exhausted_message())),
                    Some((id, now)) => {
                        let row = SetPerformanceRow {
                            session_id,
                            exercise_id,
                            set: SetPerformance {
                                performance_id: id,
                                weight_bits: payload.weight_bits,
                                reps: payload.reps,
                                set_number: payload.set_number,
                                rir: payload.rir,
                                created_at: Some(now),
                                updated_at: Some(now),
                            },
                        };
                        proof {
                            lemma_push_keeps_ids(before, row, id);
                        }
                        self.performances.push(row);
                        proof {
                            let after = self.performances@;
                            assert forall|i: int, j: int| 0 <= i < j < after.len() implies !same_set(
                                #[trigger] after[i],
                                #[trigger] after[j],
                            ) by {
                                assert(after[i] == before[i]);
                                if j < before.len() {
                                    assert(after[j] == before[j]);
                                } else {
                                    assert(!passes(before[i]));
                                }
                            }
                            assert forall|i: int| 0 <= i < after.len() implies (match (
                            #[trigger] after[i]).set.updated_at {
                                Some(stamp) => stamp < self.clock,
                                None => true,
                            }) by {
                                if i < before.len() {
                                    assert(after[i] == before[i]);
                                }
                            }
                        }
                        Ok(row.set)
                    },
                }
            },
        }
    }

    /// Looks up the exercise with the identifier.
    fn find_exercise(&self, exercise_id: u128) -> (found: Option<Exercise>)
        ensures
            found == self@.tables.exercise(exercise_id),
    {
        let is_it = |exercise: &Exercise| -> (found: bool)
            ensures
                found == (exercise.exercise_id == exercise_id),
            {
                exercise.exercise_id == exercise_id
            };
        proof {
            lemma_first_index(
                self.exercises@,
                |exercise: Exercise| exercise.exercise_id == exercise_id,
            );
        }
        match locate(
            &self.exercises,
            is_it,
            Ghost(|exercise: Exercise| exercise.exercise_id == exercise_id),
        ) {
            None => None,
            Some(at) => Some(self.exercises[at].clone()),
        }
    }

    /// Collects the links of a training day.
    fn find_links(&self, day_id: u128) -> (links: Vec<ExerciseToTrainingDay>)
        ensures
            links@ == self@.tables.links_of_day(day_id),
    {
        let keep = |link: &ExerciseToTrainingDay| -> (keep: bool)
            ensures
                keep == (link.day_id == day_id),
            {
                link.day_id == day_id
            };
        select(&self.links, keep, Ghost(|link: ExerciseToTrainingDay| link.day_id == day_id))
    }

    /// The exercises linked to a training day, in the order of the links.
    pub fn get_exercises_for_training_day(&self, day_id: u128) -> (result: Result<
        Vec<ExerciseWithLinkId>,
        RepositoryError,
    >)
        ensures
            result is Ok,
            result->Ok_0@ == self@.tables.exercises_of_day(day_id),
    {
        let links = self.find_links(day_id);
        let mut exercises: Vec<ExerciseWithLinkId> = Vec::new();
        let ghost carry = |link: ExerciseToTrainingDay|
            linked_exercise(self@.tables.exercises, link);
        let mut i: usize = 0;
        while i < links.len()
            invariant
                0 <= i <= links.len(),
                carry == |link: ExerciseToTrainingDay|
                    linked_exercise(self@.tables.exercises, link),
                exercises@ == links@.take(i as int).filter_map(carry),
            decreases links.len() - i,
        {
            let link = links[i];
            proof {
                links@.lemma_filter_map_take_succ(carry, i as int);
            }
            match self.find_exercise(link.exercise_id) {
                Some(exercise) => {
                    exercises.push(
                        ExerciseWithLinkId {
                            exercise_id: exercise.exercise_id,
                            link_id: link.link_id,
                            exercise_name: exercise.exercise_name,
                            exercise_description: exercise.exercise_description,
                            created_at: exercise.created_at,
                            updated_at: exercise.updated_at,
                        },
                    );
                },
                None => {},
            }
            i = i + 1;
        }
        proof {
            assert(links@.take(i as int) == links@);
        }
        Ok(exercises)
    }

    /// Builds the row that joins a training day with one of its links.
    fn join_day(&self, day: &TrainingDay, link: Option<ExerciseToTrainingDay>) -> (row:
        TrainingDayWithExercisesQuery)
        ensures
            row == self@.tables.day_row(*day, link),
    {
        let exercise = match link {
            Some(link) => self.find_exercise(link.exercise_id),
            None => None,
        };
        let (exercise_id, exercise_name, exercise_description) = match exercise {
            Some(exercise) => (
                Some(exercise.exercise_id),
                Some(exercise.exercise_name),
                Some(exercise.exercise_description),
            ),
            None => (None, None, None),
        };
        TrainingDayWithExercisesQuery {
            day_id: day.day_id,
            routine_id: day.routine_id,
            link_id: match link {
                Some(link) => Some(link.link_id),
                None => None,
            },
            exercise_id,
            day_name: day.day_name.clone(),
            exercise_name,
            exercise_description,
            created_at: day.created_at,
            updated_at: day.updated_at,
        }
    }

    /// Builds the rows of one training day in the join with its links.
    fn join_links_of_day(&self, day: &TrainingDay) -> (rows: Vec<TrainingDayWithExercisesQuery>)
        ensures
            rows@ == self@.tables.rows_of_day(*day),
    {
        let links = self.find_links(day.day_id);
        let mut rows: Vec<TrainingDayWithExercisesQuery> = Vec::new();
        if links.len() == 0 {
            rows.push(self.join_day(day, None));
            assert(rows@ =~= seq![self@.tables.day_row(*day, None)]);
            return rows;
        }
        let ghost make = |link: ExerciseToTrainingDay| self@.tables.day_row(*day, Some(link));
        let mut i: usize = 0;
        while i < links.len()
            invariant
                0 <= i <= links.len(),
                make == |link: ExerciseToTrainingDay| self@.tables.day_row(*day, Some(link)),
                rows@ == links@.take(i as int).map_values(make),
            decreases links.len() - i,
        {
            rows.push(self.join_day(day, Some(links[i])));
            proof {
                assert(links@.take(i + 1).map_values(make) =~= links@.take(i as int).map_values(
                    make,
                ).push(make(links@[i as int])));
            }
            i = i + 1;
        }
        proof {
            assert(links@.take(i as int) == links@);
        }
        rows
    }

    /// Builds the join of the training days of a routine with their links and
    /// exercises.
    fn join_days(&self, routine_id: u128) -> (rows: Vec<TrainingDayWithExercisesQuery>)
        ensures
            rows@ == self@.tables.day_rows(routine_id),
    {
        let mut rows: Vec<TrainingDayWithExercisesQuery> = Vec::new();
        let ghost of_routine = |day: TrainingDay| day.routine_id == routine_id;
        let mut i: usize = 0;
        while i < self.days.len()
            invariant
                0 <= i <= self.days.len(),
                of_routine == |day: TrainingDay| day.routine_id == routine_id,
                rows@ == self@.tables.rows_of_days(self.days@.take(i as int).filter(of_routine)),
            decreases self.days.len() - i,
        {
            proof {
                reveal(Seq::filter);
                assert(self.days@.take(i + 1).drop_last() =~= self.days@.take(i as int));
            }
            if self.days[i].routine_id == routine_id {
                let mut part = self.join_links_of_day(&self.days[i]);
                proof {
                    let chosen = self.days@.take(i as int).filter(of_routine);
                    assert(chosen.push(self.days@[i as int]).drop_last() =~= chosen);
                }
                rows.append(&mut part);
            }
            i = i + 1;
        }
        proof {
            assert(self.days@.take(i as int) == self.days@);
        }
        rows
    }

    /// The training days of a routine, each with the exercises linked to it:
    /// the join of the days with their links and exercises, grouped by day. A
    /// day without a link is listed with an empty list of exercises.
    pub fn get_training_days_with_exercises(&self, routine_id: u128) -> (result: Result<
        Vec<TrainingDayWithExercises>,
        RepositoryError,
    >)
        ensures
            result is Ok,
            result->Ok_0@.map_values(|day: TrainingDayWithExercises| day@) == grouped_days(
                self@.tables.day_rows(routine_id),
            ),
    {
        let rows = self.join_days(routine_id);
        Ok(training_days_with_exercises(&rows))
    }

    /// Answers a query of the start of a session. Only the insert writes.
    fn answer(&mut self, query: SessionQuery) -> (answer: SessionAnswer)
        requires
            old(self)@.wf(),
            query matches SessionQuery::Insert { day_id, .. } ==> !old(self)@.tables.in_progress(
                day_id,
            ),
        ensures
            final(self)@.wf(),
            match query {
                SessionQuery::InProgress(day_id) => {
                    &&& answer == SessionAnswer::InProgress(old(self)@.tables.in_progress(day_id))
                    &&& final(self)@ == old(self)@
                },
                SessionQuery::DayName(day_id) => {
                    &&& final(self)@ == old(self)@
                    &&& match old(self)@.tables.day(day_id) {
                        Some(day) => answer == SessionAnswer::DayName(day.day_name),
                        None => answer == SessionAnswer::NoSuchDay,
                    }
                },
                SessionQuery::Insert { day_id, day_name } => if old(self)@.exhausted() {
                    &&& answer matches SessionAnswer::Failed(text)
                    &&& text@ == exhausted_text()
                    &&& final(self)@ == old(self)@
                } else {
                    &&& answer == SessionAnswer::Inserted(old(self)@.new_session(day_id, day_name))
                    &&& final(self)@ == old(self)@.with_session(
                        old(self)@.new_session(day_id, day_name),
                    )
                },
                SessionQuery::Exercises(day_id) => {
                    &&& final(self)@ == old(self)@
                    &&& answer matches SessionAnswer::Exercises(list)
                    &&& list@ == old(self)@.tables.exercises_of_day(day_id)
                },
            },
    {
        match query {
            SessionQuery::InProgress(day_id) => {
                match self.is_previous_session_in_progress(day_id) {
                    Ok(in_progress) => SessionAnswer::InProgress(in_progress),
                    Err(_) => SessionAnswer::InProgress(false),
                }
            },
            SessionQuery::DayName(day_id) => {
                let is_it = |day: &TrainingDay| -> (found: bool)
                    ensures
                        found == (day.day_id == day_id),
                    {
                        day.day_id == day_id
                    };
                let ghost passes = |day: TrainingDay| day.day_id == day_id;
                proof {
                    lemma_first_index(self.days@, passes);
                }
                match locate(&self.days, is_it, Ghost(passes)) {
                    Some(at) => SessionAnswer::DayName(self.days[at].day_name.clone()),
                    None => SessionAnswer::NoSuchDay,
                }
            },
            SessionQuery::Insert { day_id, day_name } => {
                let ghost before = self.sessions@;
                match self.issue() {
                    None => SessionAnswer::Failed(exhausted_message()),
                    Some((id, now)) => {
                        let session = Session {
                            session_id: id,
                            day_id,
                            day_name,
                            in_progress: true,
                            created_at: Some(now),
                            updated_at: Some(now),
                        };
                        proof {
                            lemma_push_keeps_ids(before, session, id);
                        }
                        self.sessions.push(session.clone());
                        proof {
                            let after = self.sessions@;
                            assert forall|i: int, j: int|
                                0 <= i < j < after.len() && (#[trigger] after[i]).in_progress && (
                                #[trigger] after[j]).in_progress implies after[i].day_id
                                != after[j].day_id by {
                                assert(after[i] == before[i]);
                                if j < before.len() {
                                    assert(after[j] == before[j]);
                                }
                            }
                        }
                        SessionAnswer::Inserted(session)
                    },
                }
            },
            SessionQuery::Exercises(day_id) => {
                match self.get_exercises_for_training_day(day_id) {
                    Ok(list) => SessionAnswer::Exercises(list),
                    Err(_) => SessionAnswer::Exercises(Vec::new()),
                }
            },
        }
    }

    /// Starts a session of a training day. Fails with the conflict
    /// `PreviousSessionInProgress` when a session of the day is in progress,
    /// with `NotFound` when there is no such day, and with a store failure when
    /// the store is exhausted; in each of these cases nothing changes.
    /// Otherwise a session in progress is inserted with the day's name, and
    /// handed out with the exercises linked to the day and one empty
    /// performance entry per exercise, in the order of the links.
    pub fn create_session(&mut self, day_id: u128) -> (result: Result<
        SessionWithExercisePerformance,
        SessionError,
    >)
        requires
            old(self)@.wf(),
        ensures
            final(self)@.wf(),
            final(self)@ == old(self)@.after_start(day_id),
            result is Ok <==> old(self)@.can_start(day_id),
            if old(self)@.tables.in_progress(day_id) {
                &&& result == Err::<SessionWithExercisePerformance, SessionError>(
                    SessionError::PreviousSessionInProgress,
                )
                &&& final(self)@ == old(self)@
            } else {
                match old(self)@.tables.day(day_id) {
                    None => {
                        &&& result == Err::<SessionWithExercisePerformance, SessionError>(
                            SessionError::NotFound,
                        )
                        &&& final(self)@ == old(self)@
                    },
                    Some(day) => if old(self)@.exhausted() {
                        &&& result is Err
                        &&& result->Err_0.says(exhausted_text())
                        &&& final(self)@ == old(self)@
                    } else {
                        let session = old(self)@.new_session(day_id, day.day_name);
                        let exercises = old(self)@.tables.exercises_of_day(day_id);
                        &&& result is Ok
                        &&& result->Ok_0@ == performance_view(
                            session,
                            exercises,
                            blank_performance(session.session_id, exercises),
                        )
                        &&& final(self)@ == old(self)@.with_session(session)
                    },
                }
            },
    {
        let (mut state, mut query) = StartSession::begin(day_id);
        loop
            invariant
                self@.wf(),
                old(self)@.starting(self@, day_id, state, query),
            decreases state.remaining(),
        {
            let answer = self.answer(query);
            let (next, step) = state.advance(answer);
            match step {
                StartStep::Ask(following) => {
                    state = next;
                    query = following;
                },
                StartStep::Finish(result) => {
                    return result;
                },
            }
        }
    }

    /// Whether the training day with the identifier exists and belongs to the
    /// routine.
    fn has_day_in_routine(&self, day_id: u128, routine_id: u128) -> (found: bool)
        ensures
            found == self@.tables.day_in_routine(day_id, routine_id),
    {
        let is_it = |day: &TrainingDay| -> (found: bool)
            ensures
                found == (day.day_id == day_id && day.routine_id == routine_id),
            {
                day.day_id == day_id && day.routine_id == routine_id
            };
        locate(
            &self.days,
            is_it,
            Ghost(|day: TrainingDay| day.day_id == day_id && day.routine_id == routine_id),
        ).is_some()
    }

    /// The sessions of the training days of a routine, in the order of
    /// insertion. A session whose day does not exist is in no routine.
    pub fn get_all_sessions_by_routine_id(&self, routine_id: u128) -> (result: Result<
        Vec<Session>,
        SessionError,
    >)
        ensures
            result is Ok,
            result->Ok_0@ == self@.tables.sessions_of_routine(routine_id),
    {
        let mut sessions: Vec<Session> = Vec::new();
        let ghost of_routine = |session: Session|
            self@.tables.day_in_routine(session.day_id, routine_id);
        let mut i: usize = 0;
        while i < self.sessions.len()
            invariant
                0 <= i <= self.sessions.len(),
                of_routine == |session: Session|
                    self@.tables.day_in_routine(session.day_id, routine_id),
                sessions@ == self.sessions@.take(i as int).filter(of_routine),
            decreases self.sessions.len() - i,
        {
            proof {
                reveal(Seq::filter);
                assert(self.sessions@.take(i + 1).drop_last() =~= self.sessions@.take(i as int));
            }
            if self.has_day_in_routine(self.sessions[i].day_id, routine_id) {
                sessions.push(self.sessions[i].clone());
            }
            i = i + 1;
        }
        proof {
            assert(self.sessions@.take(i as int) == self.sessions@);
        }
        Ok(sessions)
    }

    /// Builds the row that joins a session with one of the links of its day.
    fn join_session(&self, session: &Session, link: Option<ExerciseToTrainingDay>) -> (row:
        SessionsWithExercisesQuery)
        ensures
            row == self@.tables.session_row(*session, link),
    {
        let exercise = match link {
            Some(link) => self.find_exercise(link.exercise_id),
            None => None,
        };
        let (exercise_id, exercise_name, exercise_description) = match exercise {
            Some(exercise) => (
                Some(exercise.exercise_id),
                Some(exercise.exercise_name),
                Some(exercise.exercise_description),
            ),
            None => (None, None, None),
        };
        SessionsWithExercisesQuery {
            session_id: session.session_id,
            day_id: session.day_id,
            day_name: session.day_name.clone(),
            in_progress: session.in_progress,
            exercise_id,
            exercise_name,
            exercise_description,
            link_id: match link {
                Some(link) => Some(link.link_id),
                None => None,
            },
            created_at: session.created_at,
            updated_at: session.updated_at,
        }
    }

    /// Builds the rows of one session in the join with the links of its day.
    fn join_links_of_session(&self, session: &Session) -> (rows: Vec<SessionsWithExercisesQuery>)
        ensures
            rows@ == self@.tables.rows_of_session(*session),
    {
        let wanted = session.day_id;
        let is_it = |day: &TrainingDay| -> (found: bool)
            ensures
                found == (day.day_id == wanted),
            {
                day.day_id == wanted
            };
        proof {
            lemma_found_by_id(self.days@, wanted);
        }
        let links = if locate(&self.days, is_it, Ghost(|day: TrainingDay| day.id() == wanted)).is_some() {
            self.find_links(wanted)
        } else {
            Vec::new()
        };
        let mut rows: Vec<SessionsWithExercisesQuery> = Vec::new();
        if links.len() == 0 {
            rows.push(self.join_session(session, None));
            assert(rows@ =~= seq![self@.tables.session_row(*session, None)]);
            return rows;
        }
        let ghost make = |link: ExerciseToTrainingDay|
            self@.tables.session_row(*session, Some(link));
        let mut i: usize = 0;
        while i < links.len()
            invariant
                0 <= i <= links.len(),
                make == |link: ExerciseToTrainingDay|
                    self@.tables.session_row(*session, Some(link)),
                rows@ == links@.take(i as int).map_values(make),
            decreases links.len() - i,
        {
            rows.push(self.join_session(session, Some(links[i])));
            proof {
                assert(links@.take(i + 1).map_values(make) =~= links@.take(i as int).map_values(
                    make,
                ).push(make(links@[i as int])));
            }
            i = i + 1;
        }
        proof {
            assert(links@.take(i as int) == links@);
        }
        rows
    }

    /// Builds the join of the sessions of a training day with the links of
    /// the day and their exercises.
    fn join_sessions(&self, day_id: u128) -> (rows: Vec<SessionsWithExercisesQuery>)
        ensures
            rows@ == self@.tables.session_rows(day_id),
    {
        let mut rows: Vec<SessionsWithExercisesQuery> = Vec::new();
        let ghost of_day = |session: Session| session.day_id == day_id;
        let mut i: usize = 0;
        while i < self.sessions.len()
            invariant
                0 <= i <= self.sessions.len(),
                of_day == |session: Session| session.day_id == day_id,
                rows@ == self@.tables.rows_of_sessions(
                    self.sessions@.take(i as int).filter(of_day),
                ),
            decreases self.sessions.len() - i,
        {
            proof {
                reveal(Seq::filter);
                assert(self.sessions@.take(i + 1).drop_last() =~= self.sessions@.take(i as int));
            }
            if self.sessions[i].day_id == day_id {
                let mut part = self.join_links_of_session(&self.sessions[i]);
                proof {
                    let chosen = self.sessions@.take(i as int).filter(of_day);
                    assert(chosen.push(self.sessions@[i as int]).drop_last() =~= chosen);
                }
                rows.append(&mut part);
            }
            i = i + 1;
        }
        proof {
            assert(self.sessions@.take(i as int) == self.sessions@);
        }
        rows
    }

    /// The sessions of a training day, each with the exercises linked to the
    /// day: the join of the sessions with the links of the day and their
    /// exercises, grouped by session. Fails with `NoExercisesFound` when a
    /// session comes out without an exercise.
    pub fn get_sessions_with_exercises(&self, day_id: u128) -> (result: Result<
        Vec<SessionWithExercises>,
        SessionError,
    >)
        ensures
            some_session_without_exercises(self@.tables.session_rows(day_id)) ==> result == Err::<
                Vec<SessionWithExercises>,
                SessionError,
            >(SessionError::NoExercisesFound),
            !some_session_without_exercises(self@.tables.session_rows(day_id)) ==> result is Ok
                && result->Ok_0@.map_values(|session: SessionWithExercises| session@)
                == grouped_sessions(self@.tables.session_rows(day_id)),
    {
        let rows = self.join_sessions(day_id);
        sessions_with_exercises(&rows)
    }

    /// The session in progress of a routine, if it has one, with the
    /// exercises linked to its day and, for each exercise, the sets recorded
    /// for it within the session, ordered by set number. A routine without a
    /// session in progress yields nothing, which is no error.
    pub fn get_session_in_progress(&self, routine_id: u128) -> (result: Result<
        Option<SessionWithExercisePerformance>,
        SessionError,
    >)
        ensures
            result is Ok,
            match self@.tables.session_in_progress(routine_id) {
                None => result->Ok_0 is None,
                Some(session) => {
                    let exercises = self@.tables.exercises_of_day(session.day_id);
                    &&& result->Ok_0 matches Some(view)
                    &&& view@ == performance_view(
                        session,
                        exercises,
                        recorded_performance(
                            session.session_id,
                            exercises,
                            self@.tables.performances,
                        ),
                    )
                },
            },
    {
        let ghost active = |session: Session|
            session.in_progress && self@.tables.day_in_routine(session.day_id, routine_id);
        let mut i: usize = 0;
        while i < self.sessions.len()
            invariant
                0 <= i <= self.sessions.len(),
                active == |session: Session|
                    session.in_progress && self@.tables.day_in_routine(
                        session.day_id,
                        routine_id,
                    ),
                forall|j: int| 0 <= j < i ==> !active(#[trigger] self.sessions@[j]),
            decreases self.sessions.len() - i,
        {
            if self.sessions[i].in_progress && self.has_day_in_routine(
                self.sessions[i].day_id,
                routine_id,
            ) {
                proof {
                    crate::rows::lemma_first_index_found(self.sessions@, active, i as int);
                }
                let session = self.sessions[i].clone();
                let exercises = match self.get_exercises_for_training_day(session.day_id) {
                    Ok(list) => list,
                    Err(_) => Vec::new(),
                };
                return Ok(
                    Some(SessionWithExercisePerformance::assembled(session, exercises, &self.performances)),
                );
            }
            i = i + 1;
        }
        proof {
            lemma_first_index(self.sessions@, active);
        }
        Ok(None)
    }

    /// Executes one statement and says how many rows it affected.
    fn execute(&mut self, statement: Statement) -> (affected: u64)
        requires
            old(self)@.wf(),
        ensures
            final(self)@.wf(),
            final(self)@ == (StoreView {
                tables: old(self)@.tables.apply(statement),
                ..old(self)@
            }),
            affected == old(self)@.tables.affected(statement),
    {
        broadcast use vstd::seq_lib::group_seq_properties;

        match statement {
            Statement::DeleteLinksOfDay(day_id) => {
                let keep = |link: &ExerciseToTrainingDay| -> (keep: bool)
                    ensures
                        keep == (link.day_id != day_id),
                    {
                        link.day_id != day_id
                    };
                let ghost kept = |link: ExerciseToTrainingDay| link.day_id != day_id;
                proof {
                    lemma_filter_keeps_distinct(self.links@, kept);
                    lemma_filter_keeps_below(self.links@, kept, self.next_id);
                    self.links@.lemma_filter_len(kept);
                }
                let before = self.links.len();
                self.links = select(&self.links, keep, Ghost(kept));
                (before - self.links.len()) as u64
            },
            Statement::DeleteDay(day_id) => {
                let keep = |day: &TrainingDay| -> (keep: bool)
                    ensures
                        keep == (day.day_id != day_id),
                    {
                        day.day_id != day_id
                    };
                let ghost kept = |day: TrainingDay| day.day_id != day_id;
                proof {
                    lemma_filter_keeps_distinct(self.days@, kept);
                    lemma_filter_keeps_below(self.days@, kept, self.next_id);
                    self.days@.lemma_filter_len(kept);
                }
                let before = self.days.len();
                self.days = select(&self.days, keep, Ghost(kept));
                (before - self.days.len()) as u64
            },
            Statement::DeleteAll(Table::Links) => {
                let before = self.links.len();
                self.links = Vec::new();
                before as u64
            },
            Statement::DeleteAll(Table::Sessions) => {
                let before = self.sessions.len();
                self.sessions = Vec::new();
                before as u64
            },
            Statement::DeleteAll(Table::TrainingDays) => {
                let before = self.days.len();
                self.days = Vec::new();
                before as u64
            },
            Statement::DeleteAll(Table::Exercises) => {
                let before = self.exercises.len();
                self.exercises = Vec::new();
                before as u64
            },
            Statement::DeleteAll(Table::Routines) => {
                let before = self.routines.len();
                self.routines = Vec::new();
                before as u64
            },
            Statement::DeleteAll(Table::Performances) => {
                let before = self.performances.len();
                self.performances = Vec::new();
                before as u64
            },
        }
    }

    /// Arranges that a command of a transaction fails: `commands` commands
    /// succeed, and the one after them fails. The commands of a transaction
    /// are its begin, its statements and its commit or rollback. The failure
    /// happens once.
    pub fn fail_transaction_after(&mut self, commands: u64)
        ensures
            final(self)@ == (StoreView { fault: Some(commands), ..old(self)@ }),
    {
        self.fault = Some(commands);
    }

    /// Counts a command of a transaction and says whether it fails as
    /// arranged.
    fn trip(&mut self) -> (failed: bool)
        ensures
            failed == (old(self)@.fault == Some(0u64)),
            final(self)@ == (StoreView {
                fault: fault_after(old(self)@.fault, 1),
                ..old(self)@
            }),
    {
        match self.fault {
            Some(left) => {
                if left == 0 {
                    self.fault = None;
                    true
                } else {
                    self.fault = Some(left - 1);
                    false
                }
            },
            None => false,
        }
    }

    /// Copies the tables.
    fn snapshot(&self) -> (saved: Snapshot)
        ensures
            saved@ == self@.tables,
    {
        Snapshot {
            routines: copy_rows(&self.routines),
            days: copy_rows(&self.days),
            exercises: copy_rows(&self.exercises),
            links: copy_rows(&self.links),
            sessions: copy_rows(&self.sessions),
            performances: copy_rows(&self.performances),
        }
    }

    /// Puts saved tables back.
    fn restore(&mut self, saved: Snapshot)
        ensures
            final(self)@ == (StoreView { tables: saved@, ..old(self)@ }),
    {
        self.routines = saved.routines;
        self.days = saved.days;
        self.exercises = saved.exercises;
        self.links = saved.links;
        self.sessions = saved.sessions;
        self.performances = saved.performances;
    }

    /// Runs the statements of a plan as one atomic unit: either every
    /// statement takes effect, in the order of the plan, or none does. The
    /// transaction commits unless a failure was arranged that hits one of
    /// its commands; it then reports the rows that each statement affected.
    pub fn run_in_transaction(&mut self, plan: &Vec<Statement>) -> (result: Result<
        Vec<u64>,
        TransactionError,
    >)
        requires
            old(self)@.wf(),
        ensures
            final(self)@.wf(),
            final(self)@.next_id == old(self)@.next_id,
            final(self)@.clock == old(self)@.clock,
            old(self)@.transaction_fails(plan@.len()) ==> {
                &&& result is Err
                &&& old(self)@.is_transaction_error(plan@.len(), result->Err_0)
                &&& final(self)@.tables == old(self)@.tables
                &&& final(self)@.fault is None
            },
            !old(self)@.transaction_fails(plan@.len()) ==> {
                &&& result is Ok
                &&& result->Ok_0@ == old(self)@.tables.affected_by(plan@)
                &&& final(self)@.tables == old(self)@.tables.apply_all(plan@)
                &&& final(self)@.fault == fault_after(old(self)@.fault, plan@.len() + 2)
            },
    {
        let (mut state, mut command) = Transaction::open(plan.len());
        let mut saved: Option<Snapshot> = None;
        loop
            invariant
                old(self)@.wf(),
                self@.wf(),
                old(self)@.running(self@, plan@, saved_tables(saved), state@, command),
            decreases state@.remaining(),
        {
            let ghost stood = state@;
            let reply = match command {
                Command::Begin => {
                    if self.trip() {
                        Reply::Failed(fault_message())
                    } else {
                        saved = Some(self.snapshot());
                        Reply::Done(0)
                    }
                },
                Command::Execute(index) => {
                    if self.trip() {
                        Reply::Failed(fault_message())
                    } else {
                        proof {
                            assert(plan@.take(index + 1).drop_last() =~= plan@.take(index as int));
                        }
                        Reply::Done(self.execute(plan[index]))
                    }
                },
                Command::Commit => {
                    if self.trip() {
                        match saved.take() {
                            Some(snapshot) => {
                                self.restore(snapshot);
                            },
                            None => {},
                        }
                        Reply::Failed(fault_message())
                    } else {
                        saved = None;
                        Reply::Done(0)
                    }
                },
                Command::Rollback => {
                    match saved.take() {
                        Some(snapshot) => {
                            self.restore(snapshot);
                        },
                        None => {},
                    }
                    if self.trip() {
                        Reply::Failed(fault_message())
                    } else {
                        Reply::Done(0)
                    }
                },
            };
            proof {
                crate::transaction::lemma_advance_progresses(stood, reply);
                let all = old(self)@.tables.affected_by(plan@);
                assert(all.take(plan@.len() as int) =~= all);
                assert(plan@.take(plan@.len() as int) =~= plan@);
                assert(plan@.take(0) =~= Seq::<Statement>::empty());
                assert(all.take(0) =~= Seq::<u64>::empty());
                if stood is Executing && reply is Done {
                    let index = stood->Executing_index;
                    assert(all.take(index + 1) =~= all.take(index as int).push(reply->Done_0));
                }
            }
            let (next, step) = state.advance(reply);
            match step {
                Step::Run(following) => {
                    state = next;
                    command = following;
                },
                Step::Finish(result) => {
                    return result;
                },
            }
        }
    }

    /// Deletes a training day together with its links, as one atomic unit:
    /// first the links of the day, then the day. Hands out the day's
    /// identifier, or nothing when there was no such day. When a failure that
    /// was arranged hits the transaction, the day and its links are all left
    /// as they were, and the failure is reported with the step that it hit.
    pub fn delete_training_day(&mut self, day_id: u128) -> (result: Result<
        Option<u128>,
        RepositoryError,
    >)
        requires
            old(self)@.wf(),
        ensures
            final(self)@.wf(),
            final(self)@.next_id == old(self)@.next_id,
            final(self)@.clock == old(self)@.clock,
            old(self)@.transaction_fails(2) ==> {
                &&& result is Err
                &&& result->Err_0.says(day_deletion_failure(old(self)@.fault->0))
                &&& final(self)@.tables == old(self)@.tables
                &&& final(self)@.fault is None
            },
            !old(self)@.transaction_fails(2) ==> {
                &&& result == Ok::<Option<u128>, RepositoryError>(
                    if has_id(old(self)@.tables.days, day_id) {
                        Some(day_id)
                    } else {
                        None
                    },
                )
                &&& final(self)@.tables == (Tables {
                    links: old(self)@.tables.links.filter(
                        |link: ExerciseToTrainingDay| link.day_id != day_id,
                    ),
                    days: old(self)@.tables.days.filter(|day: TrainingDay| day.day_id != day_id),
                    ..old(self)@.tables
                })
                &&& final(self)@.fault == fault_after(old(self)@.fault, 4)
            },
    {
        let plan = delete_training_day_plan(day_id);
        proof {
            assert(self.days@.len() == self.days.len());
            lemma_day_deletion(self@.tables, day_id);
        }
        let outcome = self.run_in_transaction(&plan);
        delete_training_day_outcome(day_id, outcome)
    }

    /// Deletes every row of every table, as one atomic unit. When a failure
    /// that was arranged hits the transaction, every table is left as it was.
    /// On an empty store the reset succeeds as on any other.
    pub fn clear_data(&mut self) -> (result: Result<(), RepositoryError>)
        requires
            old(self)@.wf(),
        ensures
            final(self)@.wf(),
            final(self)@.next_id == old(self)@.next_id,
            final(self)@.clock == old(self)@.clock,
            old(self)@.transaction_fails(6) ==> {
                &&& result is Err
                &&& result->Err_0.says(fault_text())
                &&& final(self)@.tables == old(self)@.tables
                &&& final(self)@.fault is None
            },
            !old(self)@.transaction_fails(6) ==> {
                &&& result == Ok::<(), RepositoryError>(())
                &&& final(self)@.tables == Tables::empty()
                &&& final(self)@.fault == fault_after(old(self)@.fault, 8)
            },
    {
        let plan = clear_data_plan();
        proof {
            lemma_data_reset(self@.tables);
        }
        let outcome = self.run_in_transaction(&plan);
        clear_data_outcome(outcome)
    }

    /// Inserts the training days of a batch one by one, in the order of the
    /// batch, and hands out the days created. The batch is not atomic: when
    /// the store is exhausted before the end of the batch, the batch fails,
    /// and the days inserted before stay. An empty batch succeeds and changes
    /// nothing.
    pub fn create_training_days(&mut self, items: &Vec<CreateTrainingDay>) -> (result: Result<
        Vec<TrainingDay>,
        RepositoryError,
    >)
        requires
            old(self)@.wf(),
        ensures
            final(self)@.wf(),
            final(self)@ == old(self)@.written_times(
                Tables {
                    days: old(self)@.tables.days + old(self)@.batch_of_days(items@).take(
                        old(self)@.inserted_of(items@.len()) as int,
                    ),
                    ..old(self)@.tables
                },
                old(self)@.inserted_of(items@.len()),
            ),
            items@.len() <= old(self)@.capacity() ==> result is Ok && result->Ok_0@ == old(self)@.batch_of_days(items@),
            items@.len() > old(self)@.capacity() ==> result is Err && result->Err_0.says(
                exhausted_text(),
            ),
    {
        let (mut state, mut step) = BulkInsert::<TrainingDay>::begin(items.len());
        proof {
            let batch = old(self)@.batch_of_days(items@);
            assert(batch.take(0) =~= Seq::<TrainingDay>::empty());
            assert(old(self)@.tables.days + Seq::<TrainingDay>::empty() =~= old(self)@.tables.days);
            assert(batch.take(batch.len() as int) =~= batch);
        }
        loop
            invariant
                old(self)@.wf(),
                self@.wf(),
                old(self)@.creating_days(self@, items@, state@, step@),
            decreases state@.remaining(),
        {
            match step {
                BulkStep::Finish(result) => {
                    return result;
                },
                BulkStep::Insert(index) => {
                    let ghost stood = state@;
                    let ghost before = self@;
                    let reply = match self.create_training_day(&items[index]) {
                        Ok(day) => Ok(day),
                        Err(_) => Err(exhausted_message()),
                    };
                    let (next, following) = state.advance(reply);
                    proof {
                        crate::bulk::lemma_batch_progresses(stood, reply, next@, following@);
                        let batch = old(self)@.batch_of_days(items@);
                        let created = stood->Inserting_created;
                        assert(batch.take(batch.len() as int) =~= batch);
                        if reply is Ok {
                            assert(batch.take(index + 1) =~= created.push(batch[index as int]));
                            assert(old(self)@.tables.days + created.push(reply->Ok_0)
                                =~= before.tables.days.push(reply->Ok_0));
                        }
                    }
                    state = next;
                    step = following;
                },
            }
        }
    }

    /// Inserts the exercises of a batch one by one, in the order of the batch,
    /// and hands out the exercises created. The batch is not atomic: when the
    /// store is exhausted before the end of the batch, the batch fails, and
    /// the exercises inserted before stay. An empty batch succeeds and
    /// changes nothing.
    pub fn create_exercises(&mut self, items: &Vec<CreateExercise>) -> (result: Result<
        Vec<Exercise>,
        RepositoryError,
    >)
        requires
            old(self)@.wf(),
        ensures
            final(self)@.wf(),
            final(self)@ == old(self)@.written_times(
                Tables {
                    exercises: old(self)@.tables.exercises + old(self)@.batch_of_exercises(
                        items@,
                    ).take(old(self)@.inserted_of(items@.len()) as int),
                    ..old(self)@.tables
                },
                old(self)@.inserted_of(items@.len()),
            ),
            items@.len() <= old(self)@.capacity() ==> result is Ok && result->Ok_0@ == old(self)@.batch_of_exercises(items@),
            items@.len() > old(self)@.capacity() ==> result is Err && result->Err_0.says(
                exhausted_text(),
            ),
    {
        let (mut state, mut step) = BulkInsert::<Exercise>::begin(items.len());
        proof {
            let batch = old(self)@.batch_of_exercises(items@);
            assert(batch.take(0) =~= Seq::<Exercise>::empty());
            assert(old(self)@.tables.exercises + Seq::<Exercise>::empty()
                =~= old(self)@.tables.exercises);
            assert(batch.take(batch.len() as int) =~= batch);
        }
        loop
            invariant
                old(self)@.wf(),
                self@.wf(),
                old(self)@.creating_exercises(self@, items@, state@, step@),
            decreases state@.remaining(),
        {
            match step {
                BulkStep::Finish(result) => {
                    return result;
                },
                BulkStep::Insert(index) => {
                    let ghost stood = state@;
                    let ghost before = self@;
                    let reply = match self.create_exercise(&items[index]) {
                        Ok(exercise) => Ok(exercise),
                        Err(_) => Err(exhausted_message()),
                    };
                    let (next, following) = state.advance(reply);
                    proof {
                        crate::bulk::lemma_batch_progresses(stood, reply, next@, following@);
                        let batch = old(self)@.batch_of_exercises(items@);
                        let created = stood->Inserting_created;
                        assert(batch.take(batch.len() as int) =~= batch);
                        if reply is Ok {
                            assert(batch.take(index + 1) =~= created.push(batch[index as int]));
                            assert(old(self)@.tables.exercises + created.push(reply->Ok_0)
                                =~= before.tables.exercises.push(reply->Ok_0));
                        }
                    }
                    state = next;
                    step = following;
                },
            }
        }
    }

    /// The exercises whose name mentions the fragment, in the order of
    /// insertion. Letters are compared without regard to case; the empty
    /// fragment finds every exercise.
    pub fn search_exercises(&self, name: &String) -> (result: Result<Vec<Exercise>, RepositoryError>)
        ensures
            result is Ok,
            result->Ok_0@ == self@.tables.exercises.filter(
                |exercise: Exercise| mentions(exercise.exercise_name@, name@),
            ),
    {
        let keep = |exercise: &Exercise| -> (keep: bool)
            ensures
                keep == mentions(exercise.exercise_name@, name@),
            {
                text_mentions(exercise.exercise_name.as_str(), name.as_str())
            };
        Ok(
            select(
                &self.exercises,
                keep,
                Ghost(|exercise: Exercise| mentions(exercise.exercise_name@, name@)),
            ),
        )
    }

    /// Every routine, in the order of insertion.
    pub fn get_routines(&self) -> (result: Result<Vec<Routine>, RepositoryError>)
        ensures
            result is Ok,
            result->Ok_0@ == self@.tables.routines,
    {
        Ok(copy_rows(&self.routines))
    }

    /// The routines that are flagged active, in the order of insertion.
    pub fn get_active_routines(&self) -> (result: Result<Vec<Routine>, RepositoryError>)
        ensures
            result is Ok,
            result->Ok_0@ == self@.tables.routines.filter(|routine: Routine| routine.is_active),
    {
        let keep = |routine: &Routine| -> (keep: bool)
            ensures
                keep == routine.is_active,
            {
                routine.is_active
            };
        Ok(select(&self.routines, keep, Ghost(|routine: Routine| routine.is_active)))
    }
}

} // verus!
