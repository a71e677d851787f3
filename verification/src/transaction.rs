//! The transactional executor: the decisions that run a sequence of
//! dependent statements as one atomic unit.
//!
//! The executor does not touch a store. It says which command comes next:
//! begin, the statements of the plan in their order, then commit; after the
//! first statement that fails, roll back and nothing else. Whoever drives it
//! performs each command against the store and hands the reply back.

use vstd::prelude::*;

verus! {

/// What the executor asks the store to do.
#[derive(Debug, Clone, Copy, PartialEq, Eq, Structural)]
pub enum Command {
    /// Open a transaction.
    Begin,
    /// Execute the statement at this position of the plan.
    Execute(usize),
    /// Make the statements executed so far permanent.
    Commit,
    /// Undo the statements executed so far.
    Rollback,
}

/// What the store answers to a command.
#[derive(Debug, PartialEq, Eq)]
pub enum Reply {
    /// The command was carried out; for a statement, on this many rows.
    Done(u64),
    /// The command failed; the text says how.
    Failed(String),
}

/// Why a transaction did not commit.
#[derive(Debug, PartialEq, Eq)]
pub enum TransactionError {
    /// The transaction could not be opened.
    Begin(String),
    /// The statement at `index` failed and the transaction was rolled back.
    Statement { index: usize, cause: String },
    /// The statement at `index` failed, and so did the rollback.
    Rollback { index: usize, cause: String, rollback: String },
    /// Every statement was executed, but the commit failed.
    Commit(String),
    /// The transaction had already finished.
    Finished,
}

/// The next move of a transaction.
#[derive(Debug, PartialEq, Eq)]
pub enum Step {
    /// Perform this command and hand back the reply.
    Run(Command),
    /// The transaction is over: the rows affected by each statement of the
    /// plan if it committed, else the reason why it did not.
    Finish(Result<Vec<u64>, TransactionError>),
}

/// The mathematical value of a [`Step`].
pub enum StepView {
    Run(Command),
    Committed(Seq<u64>),
    Failed(TransactionError),
}

impl View for Step {
    type V = StepView;

    open spec fn view(&self) -> StepView {
        match *self {
            Step::Run(command) => StepView::Run(command),
            Step::Finish(Ok(affected)) => StepView::Committed(affected@),
            Step::Finish(Err(error)) => StepView::Failed(error),
        }
    }
}

/// A transaction in progress: where it stands, and what it must remember.
#[derive(Debug, PartialEq, Eq)]
pub enum Transaction {
    /// `Begin` was issued; the plan has `steps` statements.
    Beginning { steps: usize },
    /// The statement at `index` was issued; those before it affected `affected`.
    Executing { steps: usize, index: usize, affected: Vec<u64> },
    /// `Commit` was issued after the whole plan.
    Committing { affected: Vec<u64> },
    /// `Rollback` was issued because the statement at `index` failed with `cause`.
    RollingBack { index: usize, cause: String },
    /// Nothing is left to do.
    Finished,
}

/// The mathematical value of a [`Transaction`].
pub enum TransactionView {
    Beginning { steps: usize },
    Executing { steps: usize, index: usize, affected: Seq<u64> },
    Committing { affected: Seq<u64> },
    RollingBack { index: usize, cause: String },
    Finished,
}

impl View for Transaction {
    type V = TransactionView;

    open spec fn view(&self) -> TransactionView {
        match *self {
            Transaction::Beginning { steps } => TransactionView::Beginning { steps },
            Transaction::Executing { steps, index, affected } => TransactionView::Executing {
                steps,
                index,
                affected: affected@,
            },
            Transaction::Committing { affected } => TransactionView::Committing {
                affected: affected@,
            },
            Transaction::RollingBack { index, cause } => TransactionView::RollingBack {
                index,
                cause,
            },
            Transaction::Finished => TransactionView::Finished,
        }
    }
}

impl TransactionView {
    /// The state and the command after `done` statements of a plan of `steps`
    /// statements have been executed: the next statement, or the commit.
    pub open spec fn proceed(steps: usize, done: usize, affected: Seq<u64>) -> (
        TransactionView,
        StepView,
    ) {
        if done < steps {
            (
                TransactionView::Executing { steps, index: done, affected },
                StepView::Run(Command::Execute(done)),
            )
        } else {
            (TransactionView::Committing { affected }, StepView::Run(Command::Commit))
        }
    }

    /// The state after a reply, and the move that follows it.
    pub open spec fn advance(self, reply: Reply) -> (TransactionView, StepView) {
        match self {
            TransactionView::Beginning { steps } => match reply {
                Reply::Done(_) => Self::proceed(steps, 0, Seq::empty()),
                Reply::Failed(cause) => (
                    TransactionView::Finished,
                    StepView::Failed(TransactionError::Begin(cause)),
                ),
            },
            TransactionView::Executing { steps, index, affected } => match reply {
                Reply::Done(rows) => if index < steps {
                    Self::proceed(steps, (index + 1) as usize, affected.push(rows))
                } else {
                    Self::proceed(steps, steps, affected)
                },
                Reply::Failed(cause) => (
                    TransactionView::RollingBack { index, cause },
                    StepView::Run(Command::Rollback),
                ),
            },
            TransactionView::Committing { affected } => match reply {
                Reply::Done(_) => (TransactionView::Finished, StepView::Committed(affected)),
                Reply::Failed(cause) => (
                    TransactionView::Finished,
                    StepView::Failed(TransactionError::Commit(cause)),
                ),
            },
            TransactionView::RollingBack { index, cause } => match reply {
                Reply::Done(_) => (
                    TransactionView::Finished,
                    StepView::Failed(TransactionError::Statement { index, cause }),
                ),
                Reply::Failed(rollback) => (
                    TransactionView::Finished,
                    StepView::Failed(TransactionError::Rollback { index, cause, rollback }),
                ),
            },
            TransactionView::Finished => (
                TransactionView::Finished,
                StepView::Failed(TransactionError::Finished),
            ),
        }
    }

    /// An upper bound on the number of replies that this transaction still takes
    /// before it finishes.
    pub open spec fn remaining(self) -> nat {
        match self {
            TransactionView::Beginning { steps } => (steps + 3) as nat,
            TransactionView::Executing { steps, index, affected } => if index < steps {
                (steps - index + 2) as nat
            } else {
                2
            },
            TransactionView::Committing { affected } => 1,
            TransactionView::RollingBack { index, cause } => 1,
            TransactionView::Finished => 0,
        }
    }
}

/// Every reply brings an unfinished transaction closer to its end, and a
/// transaction finishes exactly when it hands out its result.
pub proof fn lemma_advance_progresses(state: TransactionView, reply: Reply)
    ensures
        !(state is Finished) ==> state.advance(reply).0.remaining() < state.remaining(),
        state.advance(reply).0 is Finished <==> !(state.advance(reply).1 is Run),
{
}

/// A transaction commits only from the commit itself: after every statement
/// of the plan was executed, in order, and none failed.
pub proof fn lemma_commit_follows_plan(state: TransactionView, reply: Reply)
    requires
        state.advance(reply).1 is Committed,
    ensures
        state is Committing,
        reply is Done,
        state.advance(reply).1 == StepView::Committed(state->Committing_affected),
{
}

/// After a statement fails the executor issues the rollback and no further
/// statement: the reply to the rollback ends the transaction with an error
/// that carries the cause.
pub proof fn lemma_failure_rolls_back(state: TransactionView, cause: String, reply: Reply)
    requires
        state is Executing,
    ensures
        state.advance(Reply::Failed(cause)).1 == StepView::Run(Command::Rollback),
        state.advance(Reply::Failed(cause)).0.advance(reply).1 is Failed,
        match state.advance(Reply::Failed(cause)).0.advance(reply).1->Failed_0 {
            TransactionError::Statement { index, cause: reported } => reply is Done && index
                == state->Executing_index && reported == cause,
            TransactionError::Rollback { index, cause: reported, rollback } => reply
                == Reply::Failed(rollback) && index == state->Executing_index && reported == cause,
            _ => false,
        },
{
}

impl Transaction {
    /// Opens a transaction over a plan of `steps` statements. The command that
    /// comes with it is always `Begin`.
    pub fn open(steps: usize) -> (opened: (Transaction, Command))
        ensures
            opened.0@ == (TransactionView::Beginning { steps }),
            opened.1 == Command::Begin,
    {
        (Transaction::Beginning { steps }, Command::Begin)
    }

    fn proceed(steps: usize, done: usize, affected: Vec<u64>) -> (next: (Transaction, Step))
        ensures
            (next.0@, next.1@) == TransactionView::proceed(steps, done, affected@),
    {
        if done < steps {
            (
                Transaction::Executing { steps, index: done, affected },
                Step::Run(Command::Execute(done)),
            )
        } else {
            (Transaction::Committing { affected }, Step::Run(Command::Commit))
        }
    }

    /// Takes the reply to the last command and says what comes next.
    pub fn advance(self, reply: Reply) -> (next: (Transaction, Step))
        ensures
            (next.0@, next.1@) == self@.advance(reply),
    {
        match self {
            Transaction::Beginning { steps } => match reply {
                Reply::Done(_) => Self::proceed(steps, 0, Vec::new()),
                Reply::Failed(cause) => (
                    Transaction::Finished,
                    Step::Finish(Err(TransactionError::Begin(cause))),
                ),
            },
            Transaction::Executing { steps, index, affected } => match reply {
                Reply::Done(rows) => {
                    if index < steps {
                        let mut affected = affected;
                        affected.push(rows);
                        Self::proceed(steps, index + 1, affected)
                    } else {
                        Self::proceed(steps, steps, affected)
                    }
                },
                Reply::Failed(cause) => (
                    Transaction::RollingBack { index, cause },
                    Step::Run(Command::Rollback),
                ),
            },
            Transaction::Committing { affected } => match reply {
                Reply::Done(_) => (Transaction::Finished, Step::Finish(Ok(affected))),
                Reply::Failed(cause) => (
                    Transaction::Finished,
                    Step::Finish(Err(TransactionError::Commit(cause))),
                ),
            },
            Transaction::RollingBack { index, cause } => match reply {
                Reply::Done(_) => (
                    Transaction::Finished,
                    Step::Finish(Err(TransactionError::Statement { index, cause })),
                ),
                Reply::Failed(rollback) => (
                    Transaction::Finished,
                    Step::Finish(Err(TransactionError::Rollback { index, cause, rollback })),
                ),
            },
            Transaction::Finished => (
                Transaction::Finished,
                Step::Finish(Err(TransactionError::Finished)),
            ),
        }
    }
}

} // verus!
