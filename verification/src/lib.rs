//! Task time tracking: a task is started under a name, ended later, and the
//! records are listed and summed by time window and category.
//!
//! The record table lives in memory as a [`TaskStore`]; the operations on it
//! are verified against the specifications in each module. Whoever keeps
//! the table on disk hands the rows over with [`TaskStore::from_records`]
//! and reads them back with [`TaskStore::records`].

pub mod clock;
pub mod filters;
pub mod laws;
pub mod lifecycle;
pub mod query;
pub mod record;
pub mod report;
pub mod results;
pub mod sequences;
pub mod store;
pub mod tasktime;
pub mod text;
pub mod totals;

pub use crate::filters::Filter;
pub use crate::lifecycle::{
    end_all_active, end_all_active_at, end_last, end_last_at, end_task, end_task_at, start_task,
    start_task_at,
};
pub use crate::query::{
    list_active, list_active_at, list_all, list_all_at, list_complete, list_complete_at,
};
pub use crate::record::{Status, TaskRecord};
pub use crate::results::{CategoryTotal, MetronomeError, MetronomeResults};
pub use crate::store::TaskStore;
pub use crate::tasktime::TaskTime;
pub use crate::totals::{sum_task_times, sum_task_times_at};
