//! Tasks and their mathematical model.
//!
//! A task has no identity of its own: within a store it is named by its
//! position, and that name is valid only until the next structural mutation.

use vstd::prelude::*;

use crate::calendar::{Date, TimeOfDay};

verus! {

/// A single task: free-form content, a completion flag, and an optional
/// calendar date and start/end time of day.
#[derive(Debug)]
pub struct Task {
    pub content: Vec<char>,
    pub completed: bool,
    pub date: Option<Date>,
    pub start_time: Option<TimeOfDay>,
    pub end_time: Option<TimeOfDay>,
}

/// The mathematical value of a task: the same fields with the content as a
/// character sequence.
#[verifier::ext_equal]
pub ghost struct TaskModel {
    pub content: Seq<char>,
    pub completed: bool,
    pub date: Option<Date>,
    pub start_time: Option<TimeOfDay>,
    pub end_time: Option<TimeOfDay>,
}

impl View for Task {
    type V = TaskModel;

    open spec fn view(&self) -> TaskModel {
        TaskModel {
            content: self.content@,
            completed: self.completed,
            date: self.date,
            start_time: self.start_time,
            end_time: self.end_time,
        }
    }
}

impl Task {
    pub fn new(
        content: Vec<char>,
        completed: bool,
        date: Option<Date>,
        start_time: Option<TimeOfDay>,
        end_time: Option<TimeOfDay>,
    ) -> (r: Task)
        ensures
            r@ == (TaskModel { content: content@, completed, date, start_time, end_time }),
    {
        Task { content, completed, date, start_time, end_time }
    }
}

impl Clone for Task {
    fn clone(&self) -> (r: Self)
        ensures
            r@ == self@,
    {
        Task {
            content: crate::text::copy_chars(&self.content),
            completed: self.completed,
            date: self.date,
            start_time: self.start_time,
            end_time: self.end_time,
        }
    }
}

/// The model sequence of a task sequence.
pub open spec fn models(tasks: Seq<Task>) -> Seq<TaskModel> {
    tasks.map_values(|t: Task| t@)
}

} // verus!
