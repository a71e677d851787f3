use workout_repository::bulk::{BulkInsert, BulkStep};
use workout_repository::errors::{RepositoryError, SessionError};
use workout_repository::models::{ExerciseWithLinkId, Session};
use workout_repository::plans::{
    clear_data_outcome, clear_data_plan, delete_training_day_outcome, delete_training_day_plan,
    Statement, Table,
};
use workout_repository::session::{
    end_session_outcome, SessionAnswer, SessionQuery, StartSession, StartStep,
};
use workout_repository::transaction::{Command, Reply, Step, Transaction, TransactionError};

fn failed(text: &str) -> Reply {
    Reply::Failed(text.to_string())
}

#[test]
fn a_transaction_runs_its_plan_and_commits() {
    let (tx, command) = Transaction::open(2);
    assert_eq!(command, Command::Begin);
    let (tx, step) = tx.advance(Reply::Done(0));
    assert_eq!(step, Step::Run(Command::Execute(0)));
    let (tx, step) = tx.advance(Reply::Done(3));
    assert_eq!(step, Step::Run(Command::Execute(1)));
    let (tx, step) = tx.advance(Reply::Done(1));
    assert_eq!(step, Step::Run(Command::Commit));
    let (tx, step) = tx.advance(Reply::Done(0));
    assert_eq!(step, Step::Finish(Ok(vec![3, 1])));
    assert_eq!(tx, Transaction::Finished);
    let (tx, step) = tx.advance(Reply::Done(0));
    assert_eq!(step, Step::Finish(Err(TransactionError::Finished)));
    assert_eq!(tx, Transaction::Finished);
}

#[test]
fn an_empty_plan_begins_and_commits() {
    let (tx, _) = Transaction::open(0);
    let (tx, step) = tx.advance(Reply::Done(0));
    assert_eq!(step, Step::Run(Command::Commit));
    let (_, step) = tx.advance(Reply::Done(0));
    assert_eq!(step, Step::Finish(Ok(vec![])));
}

#[test]
fn a_failed_begin_ends_the_transaction() {
    let (tx, _) = Transaction::open(2);
    let (tx, step) = tx.advance(failed("down"));
    assert_eq!(step, Step::Finish(Err(TransactionError::Begin("down".to_string()))));
    assert_eq!(tx, Transaction::Finished);
}

#[test]
fn a_failed_statement_is_rolled_back_and_nothing_else_runs() {
    let (tx, _) = Transaction::open(2);
    let (tx, _) = tx.advance(Reply::Done(0));
    let (tx, _) = tx.advance(Reply::Done(3));
    let (tx, step) = tx.advance(failed("locked"));
    assert_eq!(step, Step::Run(Command::Rollback));
    let (_, step) = tx.advance(Reply::Done(0));
    assert_eq!(
        step,
        Step::Finish(Err(TransactionError::Statement { index: 1, cause: "locked".to_string() }))
    );
}

#[test]
fn a_failed_rollback_reports_both_failures() {
    let (tx, _) = Transaction::open(2);
    let (tx, _) = tx.advance(Reply::Done(0));
    let (tx, step) = tx.advance(failed("locked"));
    assert_eq!(step, Step::Run(Command::Rollback));
    let (_, step) = tx.advance(failed("gone"));
    assert_eq!(
        step,
        Step::Finish(Err(TransactionError::Rollback {
            index: 0,
            cause: "locked".to_string(),
            rollback: "gone".to_string(),
        }))
    );
}

#[test]
fn a_failed_commit_is_reported() {
    let (tx, _) = Transaction::open(1);
    let (tx, _) = tx.advance(Reply::Done(0));
    let (tx, _) = tx.advance(Reply::Done(5));
    let (_, step) = tx.advance(failed("late"));
    assert_eq!(step, Step::Finish(Err(TransactionError::Commit("late".to_string()))));
}

#[test]
fn the_plans_list_their_statements_in_order() {
    assert_eq!(
        delete_training_day_plan(9),
        vec![Statement::DeleteLinksOfDay(9), Statement::DeleteDay(9)]
    );
    assert_eq!(
        clear_data_plan(),
        vec![
            Statement::DeleteAll(Table::Links),
            Statement::DeleteAll(Table::Sessions),
            Statement::DeleteAll(Table::TrainingDays),
            Statement::DeleteAll(Table::Exercises),
            Statement::DeleteAll(Table::Routines),
            Statement::DeleteAll(Table::Performances),
        ]
    );
}

fn store_failure(text: &str) -> RepositoryError {
    RepositoryError::StoreFailure(text.to_string())
}

#[test]
fn the_outcome_of_a_day_deletion() {
    assert_eq!(delete_training_day_outcome(9, Ok(vec![4, 1])), Ok(Some(9)));
    assert_eq!(delete_training_day_outcome(9, Ok(vec![0, 1])), Ok(Some(9)));
    assert_eq!(delete_training_day_outcome(9, Ok(vec![4, 0])), Ok(None));
    assert_eq!(delete_training_day_outcome(9, Ok(vec![4])), Ok(None));
    assert_eq!(
        delete_training_day_outcome(9, Err(TransactionError::Begin("down".to_string()))),
        Err(store_failure("down"))
    );
    assert_eq!(
        delete_training_day_outcome(
            9,
            Err(TransactionError::Statement { index: 0, cause: "locked".to_string() })
        ),
        Err(store_failure("Error deleting day references from link table: locked"))
    );
    assert_eq!(
        delete_training_day_outcome(
            9,
            Err(TransactionError::Statement { index: 1, cause: "locked".to_string() })
        ),
        Err(store_failure("Error deleting day: locked"))
    );
    assert_eq!(
        delete_training_day_outcome(
            9,
            Err(TransactionError::Rollback {
                index: 1,
                cause: "locked".to_string(),
                rollback: "gone".to_string(),
            })
        ),
        Err(store_failure("Error rolling back transaction: gone. Original error: locked"))
    );
    assert_eq!(
        delete_training_day_outcome(9, Err(TransactionError::Commit("late".to_string()))),
        Err(store_failure("late"))
    );
    assert_eq!(
        delete_training_day_outcome(9, Err(TransactionError::Finished)),
        Err(store_failure("Transaction already finished"))
    );
}

#[test]
fn the_outcome_of_a_reset() {
    assert_eq!(clear_data_outcome(Ok(vec![1, 2, 3, 4, 5, 6])), Ok(()));
    assert_eq!(clear_data_outcome(Ok(vec![])), Ok(()));
    assert_eq!(
        clear_data_outcome(Err(TransactionError::Statement { index: 2, cause: "locked".to_string() })),
        Err(store_failure("locked"))
    );
    assert_eq!(
        clear_data_outcome(Err(TransactionError::Rollback {
            index: 2,
            cause: "locked".to_string(),
            rollback: "gone".to_string(),
        })),
        Err(store_failure("Error rolling back transaction: gone. Original error: locked"))
    );
}

fn session(day_id: u128) -> Session {
    Session {
        session_id: 77,
        day_id,
        day_name: "Monday".to_string(),
        in_progress: true,
        created_at: Some(1),
        updated_at: Some(1),
    }
}

#[test]
fn a_start_asks_its_four_questions_in_order() {
    let (state, query) = StartSession::begin(5);
    assert_eq!(query, SessionQuery::InProgress(5));
    let (state, step) = state.advance(SessionAnswer::InProgress(false));
    assert_eq!(step, StartStep::Ask(SessionQuery::DayName(5)));
    let (state, step) = state.advance(SessionAnswer::DayName("Monday".to_string()));
    assert_eq!(
        step,
        StartStep::Ask(SessionQuery::Insert { day_id: 5, day_name: "Monday".to_string() })
    );
    let (state, step) = state.advance(SessionAnswer::Inserted(session(5)));
    assert_eq!(step, StartStep::Ask(SessionQuery::Exercises(5)));
    let exercise = ExerciseWithLinkId {
        exercise_id: 7,
        link_id: 8,
        exercise_name: "Bench".to_string(),
        exercise_description: String::new(),
        created_at: None,
        updated_at: None,
    };
    let (state, step) = state.advance(SessionAnswer::Exercises(vec![exercise.clone()]));
    assert_eq!(state, StartSession::Finished);
    match step {
        StartStep::Finish(Ok(view)) => {
            assert_eq!(view.session_id, 77);
            assert_eq!(view.exercises, vec![exercise]);
            assert_eq!(view.performance.len(), 1);
            assert_eq!(view.performance[0].exercise_id, 7);
            assert!(view.performance[0].sets.is_empty());
        },
        other => panic!("unexpected step {:?}", other),
    }
}

#[test]
fn a_session_in_progress_stops_the_start_before_any_write() {
    let (state, _) = StartSession::begin(5);
    let (state, step) = state.advance(SessionAnswer::InProgress(true));
    assert_eq!(step, StartStep::Finish(Err(SessionError::PreviousSessionInProgress)));
    assert_eq!(state, StartSession::Finished);
}

#[test]
fn a_start_fails_on_a_missing_day_a_store_failure_or_a_wrong_answer() {
    let (state, _) = StartSession::begin(5);
    let (state, _) = state.advance(SessionAnswer::InProgress(false));
    let (_, step) = state.advance(SessionAnswer::NoSuchDay);
    assert_eq!(step, StartStep::Finish(Err(SessionError::NotFound)));

    let (state, _) = StartSession::begin(5);
    let (_, step) = state.advance(SessionAnswer::Failed("down".to_string()));
    assert_eq!(step, StartStep::Finish(Err(SessionError::Error("down".to_string()))));

    let (state, _) = StartSession::begin(5);
    let (state, step) = state.advance(SessionAnswer::DayName("Monday".to_string()));
    assert_eq!(
        step,
        StartStep::Finish(Err(SessionError::Error("Unexpected answer from the store".to_string())))
    );
    let (_, step) = state.advance(SessionAnswer::InProgress(false));
    assert_eq!(
        step,
        StartStep::Finish(Err(SessionError::Error("Unexpected answer from the store".to_string())))
    );
}

#[test]
fn ending_reports_not_found_unless_one_session_was_closed() {
    assert_eq!(end_session_outcome(4, 1), Ok(4));
    assert_eq!(end_session_outcome(4, 0), Err(SessionError::NotFound));
    assert_eq!(end_session_outcome(4, 2), Err(SessionError::NotFound));
}

#[test]
fn an_empty_batch_finishes_at_once() {
    let (state, step) = BulkInsert::<u8>::begin(0);
    assert_eq!(step, BulkStep::Finish(Ok(vec![])));
    assert_eq!(state, BulkInsert::Finished);
}

#[test]
fn a_batch_inserts_item_by_item() {
    let (state, step) = BulkInsert::<u8>::begin(2);
    assert_eq!(step, BulkStep::Insert(0));
    let (state, step) = state.advance(Ok(10));
    assert_eq!(step, BulkStep::Insert(1));
    let (state, step) = state.advance(Ok(11));
    assert_eq!(step, BulkStep::Finish(Ok(vec![10, 11])));
    let (_, step) = state.advance(Ok(12));
    assert_eq!(
        step,
        BulkStep::Finish(Err(RepositoryError::StoreFailure("Batch already finished".to_string())))
    );
}

#[test]
fn a_batch_stops_at_the_first_failure() {
    let (state, _) = BulkInsert::<u8>::begin(3);
    let (state, _) = state.advance(Ok(10));
    let (state, step) = state.advance(Err("full".to_string()));
    assert_eq!(step, BulkStep::Finish(Err(RepositoryError::StoreFailure("full".to_string()))));
    assert_eq!(state, BulkInsert::Finished);
}
