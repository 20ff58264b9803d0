//! Task records and their mathematical view.

use crate::text::same_text;
use vstd::prelude::*;

verus! {

/// Where a task stands in its life: it starts out active and is completed
/// once.
#[derive(Debug, Clone, Copy, PartialEq, Eq, Structural)]
pub enum Status {
    Active,
    Complete,
}

impl Status {
    /// The word under which the status is kept in a record table.
    pub open spec fn text(self) -> Seq<char> {
        match self {
            Status::Active => "Active"@,
            Status::Complete => "Complete"@,
        }
    }

    /// The status that a word names, if any. The match is exact.
    pub open spec fn parse_spec(word: Seq<char>) -> Option<Status> {
        if word == "Active"@ {
            Some(Status::Active)
        } else if word == "Complete"@ {
            Some(Status::Complete)
        } else {
            None
        }
    }

    /// The word under which the status is kept in a record table.
    pub fn as_str(&self) -> (word: &'static str)
        ensures
            word@ == self.text(),
    {
        match self {
            Status::Active => "Active",
            Status::Complete => "Complete",
        }
    }

    /// Reads a status word.
    pub fn parse(word: &str) -> (status: Option<Status>)
        ensures
            status == Status::parse_spec(word@),
    {
        if same_text(word, "Active") {
            Some(Status::Active)
        } else if same_text(word, "Complete") {
            Some(Status::Complete)
        } else {
            None
        }
    }
}

/// A task record as a mathematical value.
pub struct TaskView {
    pub id: int,
    pub name: Seq<char>,
    pub category: Seq<char>,
    pub start_time: int,
    pub end_time: Option<int>,
    pub total_time: Option<int>,
    pub status: Status,
}

impl TaskView {
    /// The record that a task has when it starts.
    pub open spec fn started(
        id: int,
        name: Seq<char>,
        category: Seq<char>,
        start_time: int,
    ) -> TaskView {
        TaskView {
            id,
            name,
            category,
            start_time,
            end_time: None,
            total_time: None,
            status: Status::Active,
        }
    }

    pub open spec fn is_active(self) -> bool {
        self.status == Status::Active
    }

    pub open spec fn is_complete(self) -> bool {
        self.status == Status::Complete
    }

    /// The record invariant: the name is not empty; an active record has
    /// neither an end time nor a total time; a complete record has both,
    /// and its total time is the span from start to end, which is not
    /// negative.
    pub open spec fn well_formed(self) -> bool {
        &&& self.name.len() > 0
        &&& match self.status {
            Status::Active => self.end_time is None && self.total_time is None,
            Status::Complete => {
                &&& self.end_time is Some
                &&& self.total_time is Some
                &&& self.total_time->0 == self.end_time->0 - self.start_time
                &&& self.total_time->0 >= 0
            },
        }
    }

    /// Whether the record can be completed at `end_time`: the end must not
    /// lie before the start, and the span must fit in an `i64`.
    pub open spec fn can_close_at(self, end_time: int) -> bool {
        0 <= end_time - self.start_time <= i64::MAX
    }

    /// The record after its completion at `end_time`.
    pub open spec fn closed_at(self, end_time: int) -> TaskView {
        TaskView {
            end_time: Some(end_time),
            total_time: Some(end_time - self.start_time),
            status: Status::Complete,
            ..self
        }
    }
}

/// One row of the record table.
#[derive(Debug, PartialEq, Eq)]
pub struct TaskRecord {
    pub id: i64,
    pub name: String,
    pub category: String,
    /// Unix timestamp in seconds.
    pub start_time: i64,
    /// Unix timestamp in seconds; absent while the task is active.
    pub end_time: Option<i64>,
    /// Seconds from start to end; absent while the task is active.
    pub total_time: Option<i64>,
    pub status: Status,
}

impl View for TaskRecord {
    type V = TaskView;

    open spec fn view(&self) -> TaskView {
        TaskView {
            id: self.id as int,
            name: self.name@,
            category: self.category@,
            start_time: self.start_time as int,
            end_time: match self.end_time {
                Some(t) => Some(t as int),
                None => None,
            },
            total_time: match self.total_time {
                Some(t) => Some(t as int),
                None => None,
            },
            status: self.status,
        }
    }
}

impl Clone for TaskRecord {
    fn clone(&self) -> (copy: TaskRecord)
        ensures
            copy == *self,
    {
        TaskRecord {
            id: self.id,
            name: self.name.clone(),
            category: self.category.clone(),
            start_time: self.start_time,
            end_time: self.end_time,
            total_time: self.total_time,
            status: self.status,
        }
    }
}

impl TaskRecord {
    /// Checks the record invariant.
    pub fn is_valid(&self) -> (ok: bool)
        ensures
            ok == self@.well_formed(),
    {
        if self.name.as_str().is_empty() {
            return false;
        }
        match self.status {
            Status::Active => self.end_time.is_none() && self.total_time.is_none(),
            Status::Complete => match (self.end_time, self.total_time) {
                (Some(end), Some(total)) => match end.checked_sub(self.start_time) {
                    Some(span) => total >= 0 && span == total,
                    None => false,
                },
                _ => false,
            },
        }
    }
}

/// The views of a sequence of records, in the same order.
pub open spec fn views(records: Seq<TaskRecord>) -> Seq<TaskView> {
    Seq::new(records.len(), |i: int| records[i]@)
}

} // verus!
