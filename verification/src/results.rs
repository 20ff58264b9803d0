//! What the operations hand back: structured results and structured errors.

use crate::record::TaskRecord;
use crate::tasktime::TaskTime;
use vstd::prelude::*;

verus! {

/// The time spent on one category.
#[derive(Debug, PartialEq, Eq)]
pub struct CategoryTotal {
    pub category: String,
    pub total_seconds: i64,
}

/// The result of an operation that succeeded.
#[derive(Debug, PartialEq)]
pub enum MetronomeResults {
    /// The record table exists.
    CreateTable,
    /// A task was started; holds its start timestamp.
    StartTask(i64),
    /// A task was ended; holds the end timestamp, the total time in seconds
    /// and the breakdown of the total time.
    EndTask(i64, i64, TaskTime),
    /// All active tasks were ended; holds how many there were.
    EndAllActive(usize),
    /// A listing; holds the number of rows and the rows.
    List(usize, Vec<TaskRecord>),
    /// Time per category, largest total first.
    SumTaskTimes(Vec<CategoryTotal>),
}

/// Why an operation did not take place.
#[derive(Debug, Clone, Copy, PartialEq, Eq, Structural)]
pub enum MetronomeError {
    /// No record matches the name or the criteria.
    NotFound,
    /// An argument is not acceptable, such as an empty task name.
    InvalidInput,
    /// The store cannot hold the outcome.
    StoreFailure,
}

} // verus!
