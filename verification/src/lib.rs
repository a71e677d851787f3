//! Workout-routine tracking: the entity model, the row-grouping engine that
//! rebuilds nested views from flat joined rows, the session lifecycle rules,
//! the transactional executor for multi-statement writes, and an in-memory
//! reference store over which the repository's guarantees are proved.

pub mod aggregate;
pub mod bulk;
pub mod errors;
pub mod grouping;
pub mod health;
pub mod laws;
pub mod models;
pub mod ordering;
pub mod performance;
pub mod plans;
pub mod rows;
pub mod search;
pub mod session;
pub mod store;
pub mod transaction;
