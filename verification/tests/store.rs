use workout_repository::errors::{ErrorKind, RepositoryError, SessionError};
use workout_repository::models::{
    CreateExercise, CreateRoutine, CreateTrainingDay, Routine, SetPerformancePayload,
};
use workout_repository::plans::{Statement, Table};
use workout_repository::store::MemoryRepository;
use workout_repository::transaction::TransactionError;

fn routine(name: &str) -> CreateRoutine {
    CreateRoutine { name: name.to_string(), description: "desc".to_string(), is_active: true }
}

fn day(routine_id: u128, name: &str) -> CreateTrainingDay {
    CreateTrainingDay { routine_id, day_name: name.to_string() }
}

fn exercise(name: &str) -> CreateExercise {
    CreateExercise { exercise_name: name.to_string(), exercise_description: String::new() }
}

fn payload(set_number: i16, weight: f32, reps: i16) -> SetPerformancePayload {
    SetPerformancePayload { weight_bits: weight.to_bits(), reps, set_number, rir: None }
}

#[test]
fn push_day_scenario() {
    let mut store = MemoryRepository::new();
    let r = store.create_routine(&routine("Push Day")).unwrap();
    assert_eq!(r.name, "Push Day");
    assert_eq!(r.description, "desc");
    assert!(r.is_active);
    let t = store.create_training_day(&day(r.routine_id, "Monday")).unwrap();
    let e1 = store.create_exercise(&exercise("Bench")).unwrap();
    let e2 = store.create_exercise(&exercise("Row")).unwrap();
    store.add_exercise_to_training_day(e1.exercise_id, t.day_id).unwrap();
    store.add_exercise_to_training_day(e2.exercise_id, t.day_id).unwrap();

    let days = store.get_training_days_with_exercises(r.routine_id).unwrap();
    assert_eq!(days.len(), 1);
    assert_eq!(days[0].day_id, t.day_id);
    assert_eq!(days[0].day_name, "Monday");
    let listed = days[0].exercises.as_ref().unwrap();
    assert_eq!(listed.len(), 2);
    assert_eq!(listed[0].exercise_id, e1.exercise_id);
    assert_eq!(listed[0].exercise_name, "Bench");
    assert_eq!(listed[1].exercise_id, e2.exercise_id);
    assert_eq!(listed[1].exercise_name, "Row");

    let s = store.create_session(t.day_id).unwrap();
    assert!(s.in_progress);
    assert_eq!(s.day_id, t.day_id);
    assert_eq!(s.day_name, "Monday");
    assert_eq!(s.exercises.len(), 2);
    assert_eq!(s.exercises[0].exercise_id, e1.exercise_id);
    assert_eq!(s.exercises[1].exercise_id, e2.exercise_id);
    assert_eq!(s.performance.len(), 2);
    assert_eq!(s.performance[0].exercise_id, e1.exercise_id);
    assert_eq!(s.performance[0].session_id, s.session_id);
    assert!(s.performance[0].sets.is_empty());
    assert_eq!(s.performance[1].exercise_id, e2.exercise_id);
    assert!(s.performance[1].sets.is_empty());

    let first =
        store.add_set_performance_to_session(s.session_id, e1.exercise_id, &payload(1, 60.0, 8)).unwrap();
    let second =
        store.add_set_performance_to_session(s.session_id, e1.exercise_id, &payload(1, 65.0, 6)).unwrap();
    assert_eq!(second.performance_id, first.performance_id);

    let view = store.get_session_in_progress(r.routine_id).unwrap().unwrap();
    assert_eq!(view.session_id, s.session_id);
    assert_eq!(view.performance.len(), 2);
    assert_eq!(view.performance[0].sets.len(), 1);
    assert_eq!(view.performance[0].sets[0].set_number, 1);
    assert_eq!(f32::from_bits(view.performance[0].sets[0].weight_bits), 65.0);
    assert_eq!(view.performance[0].sets[0].reps, 6);
    assert!(view.performance[1].sets.is_empty());

    assert_eq!(store.end_session(s.session_id), Ok(s.session_id));
    let sessions = store.get_all_sessions_by_day_id(t.day_id).unwrap();
    assert_eq!(sessions.len(), 1);
    assert!(!sessions[0].in_progress);
    assert_eq!(store.get_session_in_progress(r.routine_id), Ok(None));

    let again = store.create_session(t.day_id).unwrap();
    assert!(again.in_progress);
    assert_ne!(again.session_id, s.session_id);
}

#[test]
fn identifiers_and_stamps_come_from_the_counters() {
    let mut store = MemoryRepository::new();
    let a = store.create_routine(&routine("A")).unwrap();
    let b = store.create_routine(&routine("B")).unwrap();
    assert_eq!(a.routine_id, 1);
    assert_eq!(a.created_at, Some(0));
    assert_eq!(a.updated_at, Some(0));
    assert_eq!(b.routine_id, 2);
    assert_eq!(b.created_at, Some(1));
    assert_eq!(store.get_routines().unwrap(), vec![a, b]);
}

#[test]
fn day_without_exercises_is_listed_with_an_empty_list() {
    let mut store = MemoryRepository::new();
    let r = store.create_routine(&routine("R")).unwrap();
    let full = store.create_training_day(&day(r.routine_id, "Monday")).unwrap();
    let bare = store.create_training_day(&day(r.routine_id, "Tuesday")).unwrap();
    let other = store.create_training_day(&day(r.routine_id + 100, "Elsewhere")).unwrap();
    let e = store.create_exercise(&exercise("Squat")).unwrap();
    store.add_exercise_to_training_day(e.exercise_id, full.day_id).unwrap();

    let days = store.get_training_days_with_exercises(r.routine_id).unwrap();
    assert_eq!(days.len(), 2);
    assert_eq!(days[0].day_id, full.day_id);
    assert_eq!(days[0].exercises.as_ref().unwrap().len(), 1);
    assert_eq!(days[1].day_id, bare.day_id);
    assert_eq!(days[1].exercises, Some(vec![]));
    assert!(days.iter().all(|d| d.day_id != other.day_id));
}

#[test]
fn link_to_a_missing_exercise_contributes_nothing() {
    let mut store = MemoryRepository::new();
    let r = store.create_routine(&routine("R")).unwrap();
    let t = store.create_training_day(&day(r.routine_id, "Monday")).unwrap();
    store.add_exercise_to_training_day(999, t.day_id).unwrap();
    assert_eq!(store.get_exercises_for_training_day(t.day_id), Ok(vec![]));
    let days = store.get_training_days_with_exercises(r.routine_id).unwrap();
    assert_eq!(days.len(), 1);
    assert_eq!(days[0].exercises, Some(vec![]));
}

#[test]
fn starting_over_a_session_in_progress_is_a_conflict() {
    let mut store = MemoryRepository::new();
    let r = store.create_routine(&routine("R")).unwrap();
    let t = store.create_training_day(&day(r.routine_id, "Monday")).unwrap();
    let s = store.create_session(t.day_id).unwrap();
    assert_eq!(store.is_previous_session_in_progress(t.day_id), Ok(true));
    let before = store.get_all_sessions_by_day_id(t.day_id).unwrap();

    let conflict = store.create_session(t.day_id).unwrap_err();
    assert_eq!(conflict, SessionError::PreviousSessionInProgress);
    assert_eq!(conflict.kind(), ErrorKind::Conflict);
    let after = store.get_all_sessions_by_day_id(t.day_id).unwrap();
    assert_eq!(after, before);
    assert_eq!(after.len(), 1);
    assert_eq!(after[0].session_id, s.session_id);
    assert!(after[0].in_progress);
}

#[test]
fn sessions_of_different_days_do_not_conflict() {
    let mut store = MemoryRepository::new();
    let r = store.create_routine(&routine("R")).unwrap();
    let monday = store.create_training_day(&day(r.routine_id, "Monday")).unwrap();
    let tuesday = store.create_training_day(&day(r.routine_id, "Tuesday")).unwrap();
    assert!(store.create_session(monday.day_id).is_ok());
    assert!(store.create_session(tuesday.day_id).is_ok());
    assert_eq!(store.get_all_sessions_by_routine_id(r.routine_id).unwrap().len(), 2);
    assert_eq!(store.get_all_sessions_by_routine_id(r.routine_id + 1).unwrap().len(), 0);
}

#[test]
fn starting_a_session_of_a_missing_day_is_not_found() {
    let mut store = MemoryRepository::new();
    let error = store.create_session(42).unwrap_err();
    assert_eq!(error, SessionError::NotFound);
    assert_eq!(error.kind(), ErrorKind::NotFound);
    assert_eq!(store.get_all_sessions_by_day_id(42), Ok(vec![]));
}

#[test]
fn a_session_ends_once() {
    let mut store = MemoryRepository::new();
    assert_eq!(store.end_session(7), Err(SessionError::NotFound));
    let r = store.create_routine(&routine("R")).unwrap();
    let t = store.create_training_day(&day(r.routine_id, "Monday")).unwrap();
    let s = store.create_session(t.day_id).unwrap();
    assert_eq!(store.end_session(s.session_id), Ok(s.session_id));
    assert_eq!(store.end_session(s.session_id), Err(SessionError::NotFound));
    assert_eq!(store.is_previous_session_in_progress(t.day_id), Ok(false));
}

#[test]
fn recording_a_set_twice_leaves_one_row_with_a_later_stamp() {
    let mut store = MemoryRepository::new();
    let r = store.create_routine(&routine("R")).unwrap();
    let t = store.create_training_day(&day(r.routine_id, "Monday")).unwrap();
    let e = store.create_exercise(&exercise("Bench")).unwrap();
    store.add_exercise_to_training_day(e.exercise_id, t.day_id).unwrap();
    let s = store.create_session(t.day_id).unwrap();

    let mut with_rir = payload(1, 60.0, 8);
    with_rir.rir = Some(2);
    let first = store.add_set_performance_to_session(s.session_id, e.exercise_id, &with_rir).unwrap();
    let second =
        store.add_set_performance_to_session(s.session_id, e.exercise_id, &payload(1, 65.0, 6)).unwrap();
    assert_eq!(first.rir, Some(2));
    assert_eq!(second.performance_id, first.performance_id);
    assert_eq!(second.created_at, first.created_at);
    assert!(second.updated_at.unwrap() > first.updated_at.unwrap());
    assert_eq!(f32::from_bits(second.weight_bits), 65.0);
    assert_eq!(second.reps, 6);
    assert_eq!(second.rir, None);

    let view = store.get_session_in_progress(r.routine_id).unwrap().unwrap();
    assert_eq!(view.performance[0].sets, vec![second]);
}

#[test]
fn sets_come_out_in_the_order_of_their_numbers() {
    let mut store = MemoryRepository::new();
    let r = store.create_routine(&routine("R")).unwrap();
    let t = store.create_training_day(&day(r.routine_id, "Monday")).unwrap();
    let e = store.create_exercise(&exercise("Bench")).unwrap();
    store.add_exercise_to_training_day(e.exercise_id, t.day_id).unwrap();
    let s = store.create_session(t.day_id).unwrap();
    for number in [3i16, 1, 2] {
        store
            .add_set_performance_to_session(s.session_id, e.exercise_id, &payload(number, 50.0, 5))
            .unwrap();
    }
    let view = store.get_session_in_progress(r.routine_id).unwrap().unwrap();
    let numbers: Vec<i16> = view.performance[0].sets.iter().map(|set| set.set_number).collect();
    assert_eq!(numbers, vec![1, 2, 3]);
}

#[test]
fn a_set_can_be_recorded_against_an_ended_session_and_removed() {
    let mut store = MemoryRepository::new();
    let r = store.create_routine(&routine("R")).unwrap();
    let t = store.create_training_day(&day(r.routine_id, "Monday")).unwrap();
    let s = store.create_session(t.day_id).unwrap();
    store.end_session(s.session_id).unwrap();
    let set = store.add_set_performance_to_session(s.session_id, 5, &payload(1, 20.0, 10)).unwrap();
    assert_eq!(store.remove_set_performance_from_session(set.performance_id), Ok(set.performance_id));
    assert_eq!(
        store.remove_set_performance_from_session(set.performance_id),
        Err(SessionError::NotFound)
    );
}

fn day_with_links(store: &mut MemoryRepository, links: usize) -> (u128, u128) {
    let r = store.create_routine(&routine("R")).unwrap();
    let t = store.create_training_day(&day(r.routine_id, "Monday")).unwrap();
    for i in 0..links {
        let e = store.create_exercise(&exercise(&format!("E{}", i))).unwrap();
        store.add_exercise_to_training_day(e.exercise_id, t.day_id).unwrap();
    }
    (r.routine_id, t.day_id)
}

#[test]
fn deleting_a_day_removes_the_day_and_all_its_links() {
    let mut store = MemoryRepository::new();
    let (routine_id, day_id) = day_with_links(&mut store, 3);
    let keep = store.create_training_day(&day(routine_id, "Tuesday")).unwrap();
    store.add_exercise_to_training_day(1, keep.day_id).unwrap();
    assert_eq!(store.get_link_table_data().unwrap().len(), 4);

    assert_eq!(store.delete_training_day(day_id), Ok(Some(day_id)));
    let links = store.get_link_table_data().unwrap();
    assert_eq!(links.len(), 1);
    assert_eq!(links[0].day_id, keep.day_id);
    let days = store.get_training_days(routine_id).unwrap();
    assert_eq!(days.len(), 1);
    assert_eq!(days[0].day_id, keep.day_id);
    assert_eq!(store.get_exercises().unwrap().len(), 3);
}

#[test]
fn deleting_a_missing_day_yields_nothing_and_is_no_error() {
    let mut store = MemoryRepository::new();
    let (routine_id, _) = day_with_links(&mut store, 1);
    assert_eq!(store.delete_training_day(12345), Ok(None));
    assert_eq!(store.get_training_days(routine_id).unwrap().len(), 1);
    assert_eq!(store.get_link_table_data().unwrap().len(), 1);
}

#[test]
fn failed_day_delete_rolls_back_the_link_delete() {
    let mut store = MemoryRepository::new();
    let (routine_id, day_id) = day_with_links(&mut store, 3);
    // begin and the link delete succeed, the day delete fails
    store.fail_transaction_after(2);
    let error = store.delete_training_day(day_id).unwrap_err();
    assert_eq!(error, RepositoryError::StoreFailure("Error deleting day: Injected fault".to_string()));
    assert_eq!(error.kind(), ErrorKind::StoreFailure);
    assert_eq!(store.get_link_table_data().unwrap().len(), 3);
    assert_eq!(store.get_training_days(routine_id).unwrap().len(), 1);
    // the failure happens once
    assert_eq!(store.delete_training_day(day_id), Ok(Some(day_id)));
    assert_eq!(store.get_link_table_data().unwrap().len(), 0);
}

#[test]
fn failures_at_the_other_commands_leave_the_day_too() {
    let texts = [
        (0u64, "Injected fault"),
        (1, "Error deleting day references from link table: Injected fault"),
        (3, "Injected fault"),
    ];
    for (position, text) in texts {
        let mut store = MemoryRepository::new();
        let (routine_id, day_id) = day_with_links(&mut store, 2);
        store.fail_transaction_after(position);
        assert_eq!(
            store.delete_training_day(day_id),
            Err(RepositoryError::StoreFailure(text.to_string()))
        );
        assert_eq!(store.get_link_table_data().unwrap().len(), 2);
        assert_eq!(store.get_training_days(routine_id).unwrap().len(), 1);
    }
}

#[test]
fn a_failure_arranged_beyond_the_transaction_does_not_hit_it() {
    let mut store = MemoryRepository::new();
    let (_, day_id) = day_with_links(&mut store, 2);
    store.fail_transaction_after(4);
    assert_eq!(store.delete_training_day(day_id), Ok(Some(day_id)));
    // four commands were counted: the next transaction fails at its begin
    assert_eq!(
        store.clear_data(),
        Err(RepositoryError::StoreFailure("Injected fault".to_string()))
    );
    assert_eq!(store.clear_data(), Ok(()));
}

#[test]
fn clear_data_empties_every_table_and_can_run_again() {
    let mut store = MemoryRepository::new();
    let (routine_id, day_id) = day_with_links(&mut store, 2);
    let s = store.create_session(day_id).unwrap();
    store.add_set_performance_to_session(s.session_id, 1, &payload(1, 10.0, 1)).unwrap();

    assert_eq!(store.clear_data(), Ok(()));
    assert_eq!(store.get_routines(), Ok(vec![]));
    assert_eq!(store.get_training_days(routine_id), Ok(vec![]));
    assert_eq!(store.get_exercises(), Ok(vec![]));
    assert_eq!(store.get_link_table_data(), Ok(vec![]));
    assert_eq!(store.get_all_sessions_by_day_id(day_id), Ok(vec![]));
    assert_eq!(
        store.remove_set_performance_from_session(s.session_id + 1),
        Err(SessionError::NotFound)
    );
    assert_eq!(store.clear_data(), Ok(()));
    assert_eq!(store.get_routines(), Ok(vec![]));
}

#[test]
fn failed_clear_data_leaves_every_table() {
    let mut store = MemoryRepository::new();
    let (routine_id, _) = day_with_links(&mut store, 2);
    store.fail_transaction_after(5);
    assert_eq!(
        store.clear_data(),
        Err(RepositoryError::StoreFailure("Injected fault".to_string()))
    );
    assert_eq!(store.get_routines().unwrap().len(), 1);
    assert_eq!(store.get_training_days(routine_id).unwrap().len(), 1);
    assert_eq!(store.get_exercises().unwrap().len(), 2);
    assert_eq!(store.get_link_table_data().unwrap().len(), 2);
}

#[test]
fn run_in_transaction_reports_the_rows_of_each_statement() {
    let mut store = MemoryRepository::new();
    let (_, day_id) = day_with_links(&mut store, 3);
    let plan = vec![
        Statement::DeleteLinksOfDay(day_id),
        Statement::DeleteDay(day_id),
        Statement::DeleteDay(day_id),
        Statement::DeleteAll(Table::Exercises),
    ];
    store.fail_transaction_after(4);
    assert_eq!(
        store.run_in_transaction(&plan),
        Err(TransactionError::Statement { index: 3, cause: "Injected fault".to_string() })
    );
    assert_eq!(store.get_exercises().unwrap().len(), 3);
    assert_eq!(store.run_in_transaction(&plan), Ok(vec![3, 1, 0, 3]));
    assert_eq!(store.run_in_transaction(&Vec::new()), Ok(vec![]));
}

#[test]
fn routines_are_updated_deleted_and_filtered() {
    let mut store = MemoryRepository::new();
    let a = store.create_routine(&routine("A")).unwrap();
    let b = store.create_routine(&routine("B")).unwrap();
    let change = Routine {
        routine_id: b.routine_id,
        name: "B2".to_string(),
        description: "new".to_string(),
        is_active: false,
        created_at: None,
        updated_at: None,
    };
    let changed = store.update_routine(&change).unwrap();
    assert_eq!(changed.name, "B2");
    assert_eq!(changed.description, "new");
    assert!(!changed.is_active);
    assert_eq!(changed.created_at, b.created_at);
    assert_eq!(changed.updated_at, b.updated_at);
    assert_eq!(store.get_active_routines().unwrap(), vec![a.clone()]);

    let missing = Routine { routine_id: 77, ..change };
    assert_eq!(store.update_routine(&missing), Err(RepositoryError::NotFound));
    assert_eq!(store.delete_routine(77), Err(RepositoryError::NotFound));
    assert_eq!(RepositoryError::NotFound.kind(), ErrorKind::NotFound);
    assert_eq!(store.delete_routine(a.routine_id), Ok(a.routine_id));
    assert_eq!(store.get_routines().unwrap(), vec![changed]);
}

#[test]
fn unlinking_leaves_the_exercise_and_the_other_links() {
    let mut store = MemoryRepository::new();
    let e = store.create_exercise(&exercise("Bench")).unwrap();
    let first = store.add_exercise_to_training_day(e.exercise_id, 10).unwrap();
    let second = store.add_exercise_to_training_day(e.exercise_id, 11).unwrap();
    assert_eq!(store.remove_exercise_from_training_day(first.link_id), Ok(first.link_id));
    assert_eq!(store.remove_exercise_from_training_day(first.link_id), Err(RepositoryError::NotFound));
    assert_eq!(store.get_link_table_data().unwrap(), vec![second]);
    assert_eq!(store.get_exercises().unwrap(), vec![e]);
}

#[test]
fn batches_are_created_in_order() {
    let mut store = MemoryRepository::new();
    assert_eq!(store.create_training_days(&Vec::new()), Ok(vec![]));
    assert_eq!(store.create_exercises(&Vec::new()), Ok(vec![]));
    let days = store.create_training_days(&vec![day(1, "Monday"), day(1, "Tuesday")]).unwrap();
    assert_eq!(days.len(), 2);
    assert_eq!(days[0].day_name, "Monday");
    assert_eq!(days[0].day_id, 1);
    assert_eq!(days[1].day_name, "Tuesday");
    assert_eq!(days[1].day_id, 2);
    assert_eq!(store.get_training_days(1).unwrap(), days);
    let exercises = store.create_exercises(&vec![exercise("Bench"), exercise("Row")]).unwrap();
    assert_eq!(exercises[0].exercise_id, 3);
    assert_eq!(exercises[1].exercise_name, "Row");
    assert_eq!(store.get_exercises().unwrap(), exercises);
}

#[test]
fn search_finds_names_that_mention_the_fragment() {
    let mut store = MemoryRepository::new();
    let bench = store.create_exercise(&exercise("Bench Press")).unwrap();
    let incline = store.create_exercise(&exercise("Incline bench")).unwrap();
    let _row = store.create_exercise(&exercise("Row")).unwrap();
    let found = store.search_exercises(&"BENCH".to_string()).unwrap();
    assert_eq!(found, vec![bench, incline]);
    assert_eq!(store.search_exercises(&"".to_string()).unwrap().len(), 3);
    assert_eq!(store.search_exercises(&"curl".to_string()), Ok(vec![]));
}

#[test]
fn sessions_with_exercises_need_a_linked_exercise() {
    let mut store = MemoryRepository::new();
    let r = store.create_routine(&routine("R")).unwrap();
    let t = store.create_training_day(&day(r.routine_id, "Monday")).unwrap();
    let s = store.create_session(t.day_id).unwrap();
    assert_eq!(store.get_sessions_with_exercises(t.day_id), Err(SessionError::NoExercisesFound));
    assert_eq!(SessionError::NoExercisesFound.kind(), ErrorKind::AggregationInconsistency);

    let e = store.create_exercise(&exercise("Bench")).unwrap();
    let link = store.add_exercise_to_training_day(e.exercise_id, t.day_id).unwrap();
    store.end_session(s.session_id).unwrap();
    let later = store.create_session(t.day_id).unwrap();
    let sessions = store.get_sessions_with_exercises(t.day_id).unwrap();
    assert_eq!(sessions.len(), 2);
    assert_eq!(sessions[0].session_id, s.session_id);
    assert!(!sessions[0].in_progress);
    assert_eq!(sessions[1].session_id, later.session_id);
    assert_eq!(sessions[0].exercises.len(), 1);
    assert_eq!(sessions[0].exercises[0].exercise_id, e.exercise_id);
    assert_eq!(sessions[0].exercises[0].link_id, link.link_id);
    assert_eq!(store.get_sessions_with_exercises(t.day_id + 50), Ok(vec![]));
}
