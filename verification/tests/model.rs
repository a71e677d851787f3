use std::cmp::Ordering;
use workout_repository::errors::{ErrorKind, RepositoryError, SessionError};
use workout_repository::health::{health, service, Method, Route, API_VERSION};
use workout_repository::models::{
    CreateExercise, CreateRoutine, Routine, SearchQuery, SessionPerformance, SetPerformance,
    SetPerformancePayload,
};
use workout_repository::ordering::compare_set_numbers;
use workout_repository::search::text_mentions;

#[test]
fn health_check_works() {
    let res = health();
    assert!((200..300).contains(&res.status));
    assert_eq!(res.status, 200);
    assert_eq!(res.version, API_VERSION);
    assert_eq!(API_VERSION, "v0.0.1");
}

#[test]
fn the_health_route_is_appended() {
    let mut routes = vec![Route { method: Method::Post, path: "/v1".to_string() }];
    service(&mut routes);
    assert_eq!(routes.len(), 2);
    assert_eq!(routes[0].method, Method::Post);
    assert_eq!(routes[0].path, "/v1");
    assert_eq!(routes[1].method, Method::Get);
    assert_eq!(routes[1].path, "/health");
}

#[test]
fn a_new_session_performance_is_empty() {
    let record = SessionPerformance::new(1, 2, "Bench".to_string());
    assert_eq!(record.session_id, 1);
    assert_eq!(record.exercise_id, 2);
    assert_eq!(record.exercise_name, "Bench");
    assert!(record.sets.is_empty());
    assert_eq!(record.created_at, None);
    assert_eq!(record.updated_at, None);
}

fn set(set_number: i16, reps: i16) -> SetPerformance {
    SetPerformance {
        performance_id: 1,
        weight_bits: 0,
        reps,
        set_number,
        rir: None,
        created_at: None,
        updated_at: None,
    }
}

#[test]
fn sets_order_by_set_number_alone() {
    assert!(set(1, 50) < set(2, 1));
    assert!(set(3, 1) > set(2, 50));
    assert_eq!(set(2, 1).partial_cmp(&set(2, 50)), Some(Ordering::Equal));
    let low = SetPerformancePayload { weight_bits: 9, reps: 9, set_number: 1, rir: Some(9) };
    let high = SetPerformancePayload { weight_bits: 0, reps: 0, set_number: 2, rir: None };
    assert!(low < high);
    assert_eq!(high.partial_cmp(&low), Some(Ordering::Greater));
    assert_eq!(compare_set_numbers(-1, 1), Ordering::Less);
    assert_eq!(compare_set_numbers(4, 4), Ordering::Equal);
    assert_eq!(compare_set_numbers(5, 4), Ordering::Greater);
}

#[test]
fn records_compare_field_by_field_and_copy() {
    let routine = Routine {
        routine_id: 1,
        name: "Push".to_string(),
        description: String::new(),
        is_active: true,
        created_at: Some(1),
        updated_at: None,
    };
    let copy = routine.clone();
    assert_eq!(copy, routine);
    assert_ne!(Routine { is_active: false, ..copy }, routine);
    assert_eq!(CreateRoutine::default().name, "");
    assert_eq!(CreateExercise::default(), CreateExercise::default());
    assert_eq!(SearchQuery { name: "x".to_string() }.name, "x");
}

#[test]
fn session_errors_convert_from_text_and_have_kinds() {
    assert_eq!(SessionError::from("down".to_string()), SessionError::Error("down".to_string()));
    assert_eq!(SessionError::from("down"), SessionError::Error("down".to_string()));
    assert_eq!(SessionError::from("down").kind(), ErrorKind::StoreFailure);
    assert_eq!(SessionError::PreviousSessionInProgress.kind(), ErrorKind::Conflict);
    assert_eq!(SessionError::NoExercisesFound.kind(), ErrorKind::AggregationInconsistency);
    assert_eq!(SessionError::NotFound.kind(), ErrorKind::NotFound);
    assert_eq!(RepositoryError::NotFound.kind(), ErrorKind::NotFound);
    assert_eq!(RepositoryError::StoreFailure(String::new()).kind(), ErrorKind::StoreFailure);
}

#[test]
fn a_text_mentions_a_fragment_without_regard_to_case() {
    assert!(text_mentions("Bench Press", "bench"));
    assert!(text_mentions("Bench Press", "PRESS"));
    assert!(text_mentions("Bench Press", "h p"));
    assert!(text_mentions("Bench Press", ""));
    assert!(text_mentions("", ""));
    assert!(!text_mentions("", "a"));
    assert!(!text_mentions("Bench", "Bench Press"));
    assert!(!text_mentions("Bench Press", "row"));
    assert!(text_mentions("Überkopf", "kopf"));
    assert!(!text_mentions("Überkopf", "überkopf"));
    assert!(!text_mentions("a[b", "A{B"));
}
