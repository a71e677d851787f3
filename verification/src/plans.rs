//! The multi-statement writes of the repository: the statements they consist
//! of, in the order in which they must run, and what their outcome means.

use vstd::prelude::*;
use vstd::string::StringExecFns;
use crate::errors::RepositoryError;
use crate::transaction::TransactionError;

verus! {

/// The six logical tables of the store.
#[derive(Debug, Clone, Copy, PartialEq, Eq, Structural)]
pub enum Table {
    Links,
    Sessions,
    TrainingDays,
    Exercises,
    Routines,
    Performances,
}

/// A write that can be part of a transaction.
#[derive(Debug, Clone, Copy, PartialEq, Eq, Structural)]
pub enum Statement {
    /// Delete every link of this training day.
    DeleteLinksOfDay(u128),
    /// Delete this training day.
    DeleteDay(u128),
    /// Delete every row of this table.
    DeleteAll(Table),
}

/// The cascading delete of a training day: first its links, then the day.
pub open spec fn day_deletion(day_id: u128) -> Seq<Statement> {
    seq![Statement::DeleteLinksOfDay(day_id), Statement::DeleteDay(day_id)]
}

/// The reset of all data: every table, those that refer to others first.
pub open spec fn data_reset() -> Seq<Statement> {
    seq![
        Statement::DeleteAll(Table::Links),
        Statement::DeleteAll(Table::Sessions),
        Statement::DeleteAll(Table::TrainingDays),
        Statement::DeleteAll(Table::Exercises),
        Statement::DeleteAll(Table::Routines),
        Statement::DeleteAll(Table::Performances),
    ]
}

/// The plan that deletes a training day with its links.
pub fn delete_training_day_plan(day_id: u128) -> (plan: Vec<Statement>)
    ensures
        plan@ == day_deletion(day_id),
{
    let mut plan: Vec<Statement> = Vec::new();
    plan.push(Statement::DeleteLinksOfDay(day_id));
    plan.push(Statement::DeleteDay(day_id));
    assert(plan@ =~= day_deletion(day_id));
    plan
}

/// The plan that empties all six tables.
pub fn clear_data_plan() -> (plan: Vec<Statement>)
    ensures
        plan@ == data_reset(),
{
    let mut plan: Vec<Statement> = Vec::new();
    plan.push(Statement::DeleteAll(Table::Links));
    plan.push(Statement::DeleteAll(Table::Sessions));
    plan.push(Statement::DeleteAll(Table::TrainingDays));
    plan.push(Statement::DeleteAll(Table::Exercises));
    plan.push(Statement::DeleteAll(Table::Routines));
    plan.push(Statement::DeleteAll(Table::Performances));
    assert(plan@ =~= data_reset());
    plan
}

/// The report of a rollback that failed: it carries the rollback's own
/// failure and the failure that caused the rollback.
pub open spec fn rollback_report(cause: Seq<char>, rollback: Seq<char>) -> Seq<char> {
    "Error rolling back transaction: "@ + rollback + ". Original error: "@ + cause
}

/// The report of a transaction that did not commit.
pub open spec fn failure_report(error: TransactionError) -> Seq<char> {
    match error {
        TransactionError::Begin(cause) => cause@,
        TransactionError::Statement { index, cause } => cause@,
        TransactionError::Rollback { index, cause, rollback } => rollback_report(
            cause@,
            rollback@,
        ),
        TransactionError::Commit(cause) => cause@,
        TransactionError::Finished => "Transaction already finished"@,
    }
}

/// The report of a deletion of a training day that did not commit. A failed
/// statement is reported with the step that it belongs to.
pub open spec fn deletion_report(error: TransactionError) -> Seq<char> {
    match error {
        TransactionError::Statement { index, cause } => if index == 0 {
            "Error deleting day references from link table: "@ + cause@
        } else {
            "Error deleting day: "@ + cause@
        },
        _ => failure_report(error),
    }
}

fn report_rollback(cause: String, rollback: String) -> (text: String)
    ensures
        text@ == rollback_report(cause@, rollback@),
{
    String::from_str("Error rolling back transaction: ").concat(rollback.as_str()).concat(
        ". Original error: ",
    ).concat(cause.as_str())
}

fn report_failure(error: TransactionError) -> (text: String)
    ensures
        text@ == failure_report(error),
{
    match error {
        TransactionError::Begin(cause) => cause,
        TransactionError::Statement { index, cause } => cause,
        TransactionError::Rollback { index, cause, rollback } => report_rollback(cause, rollback),
        TransactionError::Commit(cause) => cause,
        TransactionError::Finished => String::from_str("Transaction already finished"),
    }
}

/// What the deletion of a training day amounts to, given the rows that its
/// two statements affected: the day's id if the day itself was deleted, and
/// nothing if there was no such day.
pub open spec fn deleted_day(day_id: u128, affected: Seq<u64>) -> Option<u128> {
    if affected.len() == 2 && affected[1] > 0 {
        Some(day_id)
    } else {
        None
    }
}

/// Turns the outcome of the transaction that deletes a training day into the
/// result of the deletion. A commit with no day deleted is no error: it says
/// that the day did not exist. A transaction that did not commit is a store
/// failure whose text is [`deletion_report`].
pub fn delete_training_day_outcome(day_id: u128, outcome: Result<Vec<u64>, TransactionError>) -> (result:
    Result<Option<u128>, RepositoryError>)
    ensures
        match outcome {
            Ok(affected) => result == Ok::<Option<u128>, RepositoryError>(
                deleted_day(day_id, affected@),
            ),
            Err(error) => result matches Err(RepositoryError::StoreFailure(text)) && text@
                == deletion_report(error),
        },
{
    match outcome {
        Ok(affected) => {
            if affected.len() == 2 && affected[1] > 0 {
                Ok(Some(day_id))
            } else {
                Ok(None)
            }
        },
        Err(TransactionError::Statement { index, cause }) => {
            let text = if index == 0 {
                String::from_str("Error deleting day references from link table: ").concat(
                    cause.as_str(),
                )
            } else {
                String::from_str("Error deleting day: ").concat(cause.as_str())
            };
            Err(RepositoryError::StoreFailure(text))
        },
        Err(error) => Err(RepositoryError::StoreFailure(report_failure(error))),
    }
}

/// Turns the outcome of the transaction that resets all data into the result
/// of the reset. A transaction that did not commit is a store failure whose
/// text is [`failure_report`].
pub fn clear_data_outcome(outcome: Result<Vec<u64>, TransactionError>) -> (result: Result<
    (),
    RepositoryError,
>)
    ensures
        match outcome {
            Ok(_) => result == Ok::<(), RepositoryError>(()),
            Err(error) => result matches Err(RepositoryError::StoreFailure(text)) && text@
                == failure_report(error),
        },
{
    match outcome {
        Ok(_) => Ok(()),
        Err(error) => Err(RepositoryError::StoreFailure(report_failure(error))),
    }
}

} // verus!
