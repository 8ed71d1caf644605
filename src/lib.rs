//! Reclaiming the storage that a table's superseded snapshots no longer need.
//!
//! A table's history is a chain of immutable snapshots, newest first. Each
//! snapshot lists segment locations, and each segment lists block locations.
//! Truncating the history removes every block and segment that only the
//! superseded snapshots reach, then the superseded snapshots themselves.

pub mod model;
pub mod locations;
pub mod delta;
pub mod plan;
pub mod run;
pub mod table_function;
pub mod action_handler;
pub mod decimal;
