//! In-memory core of a date-indexed task manager: a store of tasks with
//! optional calendar dates and times of day, query/derive operations over it
//! (per-date filtering, display ordering, overdue lookup), and a line-aware
//! cursor engine over a flat note buffer.

pub mod calendar;
pub mod notes;
pub mod store;
pub mod task;
pub mod text;
