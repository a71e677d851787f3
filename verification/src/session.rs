//! The session state controller: the rules by which a session of a training
//! day is started and ended.
//!
//! A training day is idle or has exactly one session in progress. Starting a
//! session asks the store, in this order: whether a session of the day is in
//! progress, the day's name, to insert the session, and the exercises linked
//! to the day. The controller decides after each answer what comes next; it
//! asks for nothing to be written once it has learned of a session in progress.

use vstd::prelude::*;
use vstd::string::StringExecFns;
use crate::errors::SessionError;
use crate::models::{
    ExerciseWithLinkId, Session, SessionWithExercisePerformance,
    SessionWithExercisePerformanceView,
};
use crate::performance::{blank_performance, performance_view};

verus! {

/// What the controller asks the store while a session is started.
#[derive(Debug, PartialEq, Eq)]
pub enum SessionQuery {
    /// Is a session of this training day in progress?
    InProgress(u128),
    /// What is the name of this training day?
    DayName(u128),
    /// Insert a session of this training day, in progress, with this name.
    Insert { day_id: u128, day_name: String },
    /// Which exercises are linked to this training day, in link order?
    Exercises(u128),
}

/// What the store answers to a [`SessionQuery`].
#[derive(Debug, PartialEq, Eq)]
pub enum SessionAnswer {
    /// Whether a session of the day is in progress.
    InProgress(bool),
    /// The name of the day.
    DayName(String),
    /// There is no such day.
    NoSuchDay,
    /// The session as it was inserted.
    Inserted(Session),
    /// The exercises linked to the day.
    Exercises(Vec<ExerciseWithLinkId>),
    /// The store failed; the text says how.
    Failed(String),
}

/// The next move while a session is started.
#[derive(Debug, PartialEq, Eq)]
pub enum StartStep {
    /// Put this query to the store and hand back the answer.
    Ask(SessionQuery),
    /// The start is over: the new session's view, or the reason why there is none.
    Finish(Result<SessionWithExercisePerformance, SessionError>),
}

/// The mathematical value of a [`StartStep`].
pub enum StartStepView {
    Ask(SessionQuery),
    Started(SessionWithExercisePerformanceView),
    Failed(SessionError),
}

impl View for StartStep {
    type V = StartStepView;

    open spec fn view(&self) -> StartStepView {
        match *self {
            StartStep::Ask(query) => StartStepView::Ask(query),
            StartStep::Finish(Ok(started)) => StartStepView::Started(started@),
            StartStep::Finish(Err(error)) => StartStepView::Failed(error),
        }
    }
}

/// The start of a session, under way.
#[derive(Debug, PartialEq, Eq)]
pub enum StartSession {
    /// The store was asked whether a session of the day is in progress.
    Checking { day_id: u128 },
    /// The store was asked for the day's name.
    Naming { day_id: u128 },
    /// The store was asked to insert the session.
    Inserting { day_id: u128 },
    /// The store was asked for the exercises linked to the day of this session.
    Listing { session: Session },
    /// Nothing is left to do.
    Finished,
}

/// What is reported when the store answers something that was not asked.
pub open spec fn unexpected_answer() -> Seq<char> {
    "Unexpected answer from the store"@
}

/// Whether an error is the report of an answer that was not asked for.
pub open spec fn is_unexpected_answer(error: SessionError) -> bool {
    error matches SessionError::Error(text) && text@ == unexpected_answer()
}

impl StartSession {
    /// Whether `next` and `step` follow from this state and the answer.
    ///
    /// A session in progress ends the start with a conflict. A day that does
    /// not exist ends it with `NotFound`. A failure of the store ends it with
    /// the store's text. An answer that does not fit the
    /// query ends it with a report of that. Otherwise the next query is asked
    /// and, after the last one, the new session's view is handed out with one
    /// empty performance entry per exercise.
    pub open spec fn advances(
        self,
        answer: SessionAnswer,
        next: StartSession,
        step: StartStepView,
    ) -> bool {
        match (self, answer) {
            (StartSession::Finished, _) => {
                &&& next == StartSession::Finished
                &&& step matches StartStepView::Failed(error)
                &&& is_unexpected_answer(error)
            },
            (_, SessionAnswer::Failed(cause)) => {
                &&& next == StartSession::Finished
                &&& step == StartStepView::Failed(SessionError::Error(cause))
            },
            (StartSession::Checking { day_id }, SessionAnswer::InProgress(true)) => {
                &&& next == StartSession::Finished
                &&& step == StartStepView::Failed(SessionError::PreviousSessionInProgress)
            },
            (StartSession::Checking { day_id }, SessionAnswer::InProgress(false)) => {
                &&& next == (StartSession::Naming { day_id })
                &&& step == StartStepView::Ask(SessionQuery::DayName(day_id))
            },
            (StartSession::Naming { day_id }, SessionAnswer::DayName(day_name)) => {
                &&& next == (StartSession::Inserting { day_id })
                &&& step == StartStepView::Ask(SessionQuery::Insert { day_id, day_name })
            },
            (StartSession::Naming { day_id }, SessionAnswer::NoSuchDay) => {
                &&& next == StartSession::Finished
                &&& step == StartStepView::Failed(SessionError::NotFound)
            },
            (StartSession::Inserting { day_id }, SessionAnswer::Inserted(session)) => {
                &&& next == (StartSession::Listing { session })
                &&& step == StartStepView::Ask(SessionQuery::Exercises(day_id))
            },
            (StartSession::Listing { session }, SessionAnswer::Exercises(exercises)) => {
                &&& next == StartSession::Finished
                &&& step == StartStepView::Started(
                    performance_view(
                        session,
                        exercises@,
                        blank_performance(session.session_id, exercises@),
                    ),
                )
            },
            _ => {
                &&& next == StartSession::Finished
                &&& step matches StartStepView::Failed(error)
                &&& is_unexpected_answer(error)
            },
        }
    }

    /// An upper bound on the number of answers that the start still takes.
    pub open spec fn remaining(self) -> nat {
        match self {
            StartSession::Checking { day_id } => 4,
            StartSession::Naming { day_id } => 3,
            StartSession::Inserting { day_id } => 2,
            StartSession::Listing { session } => 1,
            StartSession::Finished => 0,
        }
    }

    /// Begins to start a session of a training day. The query that comes with
    /// it asks whether a session of the day is in progress.
    pub fn begin(day_id: u128) -> (begun: (StartSession, SessionQuery))
        ensures
            begun.0 == (StartSession::Checking { day_id }),
            begun.1 == SessionQuery::InProgress(day_id),
    {
        (StartSession::Checking { day_id }, SessionQuery::InProgress(day_id))
    }

    fn unexpected() -> (next: (StartSession, StartStep))
        ensures
            next.0 == StartSession::Finished,
            next.1@ matches StartStepView::Failed(error) && is_unexpected_answer(error),
    {
        (
            StartSession::Finished,
            StartStep::Finish(
                Err(SessionError::Error(String::from_str("Unexpected answer from the store"))),
            ),
        )
    }

    /// Takes the answer to the last query and says what comes next.
    pub fn advance(self, answer: SessionAnswer) -> (next: (StartSession, StartStep))
        ensures
            self.advances(answer, next.0, next.1@),
    {
        match (self, answer) {
            (StartSession::Finished, _) => Self::unexpected(),
            (_, SessionAnswer::Failed(cause)) => (
                StartSession::Finished,
                StartStep::Finish(Err(SessionError::Error(cause))),
            ),
            (StartSession::Checking { day_id }, SessionAnswer::InProgress(in_progress)) => {
                if in_progress {
                    (
                        StartSession::Finished,
                        StartStep::Finish(Err(SessionError::PreviousSessionInProgress)),
                    )
                } else {
                    (
                        StartSession::Naming { day_id },
                        StartStep::Ask(SessionQuery::DayName(day_id)),
                    )
                }
            },
            (StartSession::Naming { day_id }, SessionAnswer::DayName(day_name)) => (
                StartSession::Inserting { day_id },
                StartStep::Ask(SessionQuery::Insert { day_id, day_name }),
            ),
            (StartSession::Naming { day_id }, SessionAnswer::NoSuchDay) => (
                StartSession::Finished,
                StartStep::Finish(Err(SessionError::NotFound)),
            ),
            (StartSession::Inserting { day_id }, SessionAnswer::Inserted(session)) => (
                StartSession::Listing { session },
                StartStep::Ask(SessionQuery::Exercises(day_id)),
            ),
            (StartSession::Listing { session }, SessionAnswer::Exercises(exercises)) => (
                StartSession::Finished,
                StartStep::Finish(Ok(SessionWithExercisePerformance::started(session, exercises))),
            ),
            _ => Self::unexpected(),
        }
    }
}

/// Every answer brings an unfinished start closer to its end, and the start
/// is finished exactly when it hands out its result.
pub proof fn lemma_start_progresses(
    state: StartSession,
    answer: SessionAnswer,
    next: StartSession,
    step: StartStepView,
)
    requires
        state.advances(answer, next, step),
    ensures
        !(state is Finished) ==> next.remaining() < state.remaining(),
        next is Finished <==> !(step is Ask),
{
}

/// Once the store has said that a session of the day is in progress, the
/// start fails with the conflict and asks for nothing more: no session is
/// inserted.
pub proof fn lemma_conflict_ends_start(day_id: u128, next: StartSession, step: StartStepView)
    requires
        (StartSession::Checking { day_id }).advances(SessionAnswer::InProgress(true), next, step),
    ensures
        step == StartStepView::Failed(SessionError::PreviousSessionInProgress),
        next is Finished,
{
}

/// A session is inserted only after the store has said that no session of
/// the day is in progress, and has named the day.
pub proof fn lemma_insert_follows_check(
    state: StartSession,
    answer: SessionAnswer,
    next: StartSession,
    step: StartStepView,
)
    requires
        state.advances(answer, next, step),
        step matches StartStepView::Ask(SessionQuery::Insert { .. }),
    ensures
        state is Naming,
        answer is DayName,
        step == StartStepView::Ask(
            SessionQuery::Insert { day_id: state->Naming_day_id, day_name: answer->DayName_0 },
        ),
{
}

/// The outcome of ending a session, from the number of sessions that the
/// store found in progress under the id and closed.
pub open spec fn ended(session_id: u128, closed: u64) -> Result<u128, SessionError> {
    if closed == 1 {
        Ok(session_id)
    } else {
        Err(SessionError::NotFound)
    }
}

/// Decides the outcome of ending a session: the session's id if exactly one
/// session in progress was closed, else that no session was found. Ending a
/// session that has ended closes nothing, so it is not found.
pub fn end_session_outcome(session_id: u128, closed: u64) -> (outcome: Result<u128, SessionError>)
    ensures
        outcome == ended(session_id, closed),
{
    if closed == 1 {
        Ok(session_id)
    } else {
        Err(SessionError::NotFound)
    }
}

} // verus!
