//! Step-by-step runs of classic sorting and searching algorithms.
//!
//! An algorithm is a state machine that advances by a bounded number of
//! elementary operations per call, so that a host can show its progress
//! between calls.
//!
//! - [`run`] holds the mathematical model of a run.
//! - [`app`] holds the executable state that follows the model, and the
//!   steppers that advance it.
//! - [`report`] holds what a stepper hands out when a run is completed.
//! - [`sorting`] and [`searching`] state and prove what holds of the runs.
//! - [`host`] holds what is taken on trust from the clock and the random
//!   number generator.

pub mod app;
pub mod host;
pub mod report;
pub mod run;
pub mod searching;
pub mod sorting;
