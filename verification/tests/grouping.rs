use workout_repository::aggregate::{group_by_parent, Gathers};
use workout_repository::errors::SessionError;
use workout_repository::grouping::{sessions_with_exercises, training_days_with_exercises};
use workout_repository::models::{
    ExerciseWithLinkId, Session, SessionWithExercisePerformance, SessionWithExercises,
    SessionsWithExercisesQuery, SetPerformance, SetPerformanceRow, TrainingDayWithExercises,
    TrainingDayWithExercisesQuery,
};
use workout_repository::performance::sets_in_order;

fn day_row(day_id: u128, name: &str, exercise: Option<(u128, u128, &str)>) -> TrainingDayWithExercisesQuery {
    TrainingDayWithExercisesQuery {
        day_id,
        routine_id: 1,
        link_id: exercise.map(|e| e.0),
        exercise_id: exercise.map(|e| e.1),
        day_name: name.to_string(),
        exercise_name: exercise.map(|e| e.2.to_string()),
        exercise_description: exercise.map(|_| "how".to_string()),
        created_at: Some(day_id as i64),
        updated_at: None,
    }
}

#[test]
fn days_come_out_in_first_seen_order_with_children_in_row_order() {
    let rows = vec![
        day_row(20, "Tuesday", Some((201, 2, "Row"))),
        day_row(10, "Monday", Some((101, 1, "Bench"))),
        day_row(20, "Tuesday", Some((202, 1, "Bench"))),
        day_row(30, "Rest", None),
        day_row(10, "Monday", Some((102, 3, "Dip"))),
    ];
    let days = training_days_with_exercises(&rows);
    let ids: Vec<u128> = days.iter().map(|d| d.day_id).collect();
    assert_eq!(ids, vec![20, 10, 30]);
    let links = |d: &TrainingDayWithExercises| -> Vec<u128> {
        d.exercises.as_ref().unwrap().iter().map(|e| e.link_id).collect()
    };
    assert_eq!(links(&days[0]), vec![201, 202]);
    assert_eq!(links(&days[1]), vec![101, 102]);
    assert_eq!(days[2].exercises, Some(vec![]));
    assert_eq!(days[1].day_name, "Monday");
    assert_eq!(days[1].routine_id, 1);
    assert_eq!(days[1].created_at, Some(10));
    let dip = &days[1].exercises.as_ref().unwrap()[1];
    assert_eq!(
        *dip,
        ExerciseWithLinkId {
            exercise_id: 3,
            link_id: 102,
            exercise_name: "Dip".to_string(),
            exercise_description: "how".to_string(),
            created_at: Some(10),
            updated_at: None,
        }
    );
}

#[test]
fn a_row_with_a_missing_child_column_carries_no_child() {
    let mut partial = day_row(10, "Monday", Some((101, 1, "Bench")));
    partial.exercise_description = None;
    let mut unlinked = day_row(10, "Monday", Some((102, 2, "Row")));
    unlinked.link_id = None;
    let days = training_days_with_exercises(&vec![partial, unlinked, day_row(10, "Monday", Some((103, 3, "Dip")))]);
    assert_eq!(days.len(), 1);
    let listed = days[0].exercises.as_ref().unwrap();
    assert_eq!(listed.len(), 1);
    assert_eq!(listed[0].link_id, 103);
}

#[test]
fn the_parent_takes_the_columns_of_its_first_row() {
    let rows = vec![day_row(10, "First", None), day_row(10, "Second", Some((101, 1, "Bench")))];
    let days = training_days_with_exercises(&rows);
    assert_eq!(days.len(), 1);
    assert_eq!(days[0].day_name, "First");
    assert_eq!(days[0].exercises.as_ref().unwrap().len(), 1);
}

#[test]
fn no_rows_give_no_parents() {
    assert_eq!(training_days_with_exercises(&Vec::new()), vec![]);
    assert_eq!(sessions_with_exercises(&Vec::new()), Ok(vec![]));
}

fn session_row(session_id: u128, exercise: Option<(u128, u128)>) -> SessionsWithExercisesQuery {
    SessionsWithExercisesQuery {
        session_id,
        day_id: 5,
        day_name: "Monday".to_string(),
        in_progress: session_id % 2 == 1,
        exercise_id: exercise.map(|e| e.1),
        exercise_name: exercise.map(|_| "Bench".to_string()),
        exercise_description: exercise.map(|_| String::new()),
        link_id: exercise.map(|e| e.0),
        created_at: None,
        updated_at: Some(9),
    }
}

#[test]
fn sessions_are_grouped_like_days() {
    let rows = vec![
        session_row(2, Some((21, 7))),
        session_row(1, Some((21, 7))),
        session_row(2, Some((22, 8))),
        session_row(1, Some((22, 8))),
    ];
    let sessions = sessions_with_exercises(&rows).unwrap();
    assert_eq!(sessions.len(), 2);
    assert_eq!(sessions[0].session_id, 2);
    assert!(!sessions[0].in_progress);
    assert_eq!(sessions[1].session_id, 1);
    assert!(sessions[1].in_progress);
    for session in &sessions {
        let links: Vec<u128> = session.exercises.iter().map(|e| e.link_id).collect();
        assert_eq!(links, vec![21, 22]);
        assert_eq!(session.day_id, 5);
        assert_eq!(session.updated_at, Some(9));
    }
}

#[test]
fn a_session_without_exercises_fails_the_whole_read() {
    let rows = vec![session_row(1, Some((21, 7))), session_row(2, None)];
    assert_eq!(sessions_with_exercises(&rows), Err(SessionError::NoExercisesFound));
}

#[test]
fn the_engine_can_be_used_directly() {
    let rows = vec![session_row(4, None), session_row(4, Some((1, 1)))];
    let groups: Vec<SessionWithExercises> = group_by_parent(&rows);
    assert_eq!(groups.len(), 1);
    assert_eq!(groups[0].exercises.len(), 1);
    assert_eq!(<SessionWithExercises as Gathers>::key_of(&rows[0]), 4);
    assert_eq!(<SessionWithExercises as Gathers>::child_of(&rows[0]), None);
}

fn set(performance_id: u128, set_number: i16) -> SetPerformance {
    SetPerformance {
        performance_id,
        weight_bits: 40.5f32.to_bits(),
        reps: 8,
        set_number,
        rir: Some(1),
        created_at: None,
        updated_at: None,
    }
}

fn set_row(session_id: u128, exercise_id: u128, performance_id: u128, set_number: i16) -> SetPerformanceRow {
    SetPerformanceRow { session_id, exercise_id, set: set(performance_id, set_number) }
}

#[test]
fn sets_are_collected_by_session_and_exercise_and_ordered() {
    let rows = vec![
        set_row(1, 7, 100, 3),
        set_row(1, 8, 101, 1),
        set_row(2, 7, 102, 1),
        set_row(1, 7, 103, 1),
        set_row(1, 7, 104, 2),
    ];
    let ids: Vec<u128> = sets_in_order(&rows, 1, 7).iter().map(|s| s.performance_id).collect();
    assert_eq!(ids, vec![103, 104, 100]);
    assert_eq!(sets_in_order(&rows, 3, 7), vec![]);
    assert_eq!(sets_in_order(&rows, 1, 8), vec![set(101, 1)]);
}

#[test]
fn sets_with_the_same_number_keep_the_order_of_their_rows() {
    let rows = vec![set_row(1, 7, 100, 2), set_row(1, 7, 101, 1), set_row(1, 7, 102, 2), set_row(1, 7, 103, 1)];
    let ids: Vec<u128> = sets_in_order(&rows, 1, 7).iter().map(|s| s.performance_id).collect();
    assert_eq!(ids, vec![101, 103, 100, 102]);
}

fn linked(exercise_id: u128, name: &str) -> ExerciseWithLinkId {
    ExerciseWithLinkId {
        exercise_id,
        link_id: exercise_id + 1000,
        exercise_name: name.to_string(),
        exercise_description: String::new(),
        created_at: None,
        updated_at: None,
    }
}

fn session(session_id: u128) -> Session {
    Session {
        session_id,
        day_id: 5,
        day_name: "Monday".to_string(),
        in_progress: true,
        created_at: Some(3),
        updated_at: Some(4),
    }
}

#[test]
fn a_started_view_has_one_empty_entry_per_exercise() {
    let view = SessionWithExercisePerformance::started(session(1), vec![linked(7, "Bench"), linked(8, "Row")]);
    assert_eq!(view.session_id, 1);
    assert_eq!(view.day_id, 5);
    assert_eq!(view.day_name, "Monday");
    assert!(view.in_progress);
    assert_eq!(view.created_at, Some(3));
    assert_eq!(view.updated_at, Some(4));
    assert_eq!(view.exercises, vec![linked(7, "Bench"), linked(8, "Row")]);
    assert_eq!(view.performance.len(), 2);
    assert_eq!(view.performance[1].session_id, 1);
    assert_eq!(view.performance[1].exercise_id, 8);
    assert_eq!(view.performance[1].exercise_name, "Row");
    assert!(view.performance[1].sets.is_empty());
    assert_eq!(view.performance[1].created_at, None);
    assert_eq!(view.performance[1].updated_at, None);
    let none = SessionWithExercisePerformance::started(session(1), vec![]);
    assert!(none.performance.is_empty());
}

#[test]
fn an_assembled_view_carries_the_sets_of_each_exercise() {
    let rows = vec![set_row(1, 8, 101, 2), set_row(1, 7, 100, 1), set_row(1, 8, 102, 1), set_row(9, 7, 103, 1)];
    let view =
        SessionWithExercisePerformance::assembled(session(1), vec![linked(7, "Bench"), linked(8, "Row")], &rows);
    assert_eq!(view.performance.len(), 2);
    assert_eq!(view.performance[0].sets, vec![set(100, 1)]);
    assert_eq!(view.performance[1].sets, vec![set(102, 1), set(101, 2)]);
    assert_eq!(view.performance[1].exercise_name, "Row");
}
