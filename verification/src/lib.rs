//! Weekly shift rostering as binary integer programming, with the model
//! builder verified: a roster of workers with preferences and remaining-hour
//! balances becomes decision variables, coverage and hour-bound constraints,
//! and a fairness-weighted objective; a returned 0/1 assignment decodes back
//! into a per-worker calendar. The numeric solving engine itself is an
//! external collaborator behind the [`model::Model`] interface.
pub mod model;
pub mod person;
pub mod schedule;
pub mod scheduler;
pub mod timetable;
