//! A verified columnar transformation engine.
//!
//! The library ingests tabular data into an in-memory columnar batch and
//! derives new columns through sequential, stateful, per-row transformations:
//! time-bucket assignment, group-id assignment, and numeric derivations.

pub mod column;
pub mod compute;
pub mod dialogs;
pub mod error;
pub mod frac;
pub mod grouping;
pub mod intmath;
pub mod pipeline;
pub mod text;
pub mod timebin;
pub mod timestamp;
pub mod transformer;
