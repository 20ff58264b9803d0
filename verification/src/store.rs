//! The record table: one row per task instance, in the order of their ids.

use crate::record::{views, Status, TaskRecord, TaskView};
use crate::results::MetronomeError;
use crate::sequences::{lemma_filter_none, lemma_filter_take_next};
use vstd::prelude::*;

verus! {

/// What holds of the rows of every table: each row meets the record
/// invariant, and the ids grow strictly from row to row, so that no id
/// occurs twice.
pub open spec fn rows_valid(rows: Seq<TaskView>) -> bool {
    &&& forall|i: int| 0 <= i < rows.len() ==> (#[trigger] rows[i]).well_formed()
    &&& forall|i: int, j: int| 0 <= i < j < rows.len() ==> (#[trigger] rows[i]).id < (#[trigger] rows[j]).id
}

/// The record table. It owns the identity of the records: ids are handed
/// out in growing order and never reused.
pub struct TaskStore {
    records: Vec<TaskRecord>,
    last_id: i64,
}

impl View for TaskStore {
    type V = Seq<TaskView>;

    /// The rows of the table, oldest id first.
    closed spec fn view(&self) -> Seq<TaskView> {
        views(self.records@)
    }
}

/// The table `after` is the table `before`: the same rows, and the same ids
/// handed out.
pub open spec fn unchanged(before: TaskStore, after: TaskStore) -> bool {
    after@ == before@ && after.last_id() == before.last_id()
}

/// Row `i` is an active record with the given name.
pub open spec fn is_active_named(rows: Seq<TaskView>, name: Seq<char>, i: int) -> bool {
    0 <= i < rows.len() && rows[i].is_active() && rows[i].name == name
}

/// Row `i` is at least as recent as row `j`: it started later, or at the
/// same time without standing before `j` in the table.
pub open spec fn at_least_as_recent(rows: Seq<TaskView>, i: int, j: int) -> bool {
    rows[j].start_time < rows[i].start_time || (rows[j].start_time == rows[i].start_time && j <= i)
}

/// Row `i` is the record that ending a task by name acts on: among the
/// active records with that name the one that started last and, where
/// several started at the same time, the one with the largest id.
pub open spec fn is_end_target(rows: Seq<TaskView>, name: Seq<char>, i: int) -> bool {
    &&& is_active_named(rows, name, i)
    &&& forall|j: int| #[trigger]
        is_active_named(rows, name, j) ==> at_least_as_recent(rows, i, j)
}

/// Row `i` is the active record that started last; where several started at
/// the same time, the one with the largest id.
pub open spec fn is_last_active(rows: Seq<TaskView>, i: int) -> bool {
    &&& 0 <= i < rows.len()
    &&& rows[i].is_active()
    &&& forall|j: int|
        0 <= j < rows.len() && (#[trigger] rows[j]).is_active() ==> at_least_as_recent(rows, i, j)
}

/// The test for active rows.
pub open spec fn is_active() -> spec_fn(TaskView) -> bool {
    |row: TaskView| row.is_active()
}

/// The active rows of a table, in table order.
pub open spec fn active_rows(rows: Seq<TaskView>) -> Seq<TaskView> {
    rows.filter(is_active())
}

/// Every active row can be completed at `end_time`.
pub open spec fn all_can_close_at(rows: Seq<TaskView>, end_time: int) -> bool {
    forall|i: int|
        0 <= i < rows.len() && (#[trigger] rows[i]).is_active() ==> rows[i].can_close_at(end_time)
}

/// The table after every active row was completed at `end_time`; the other
/// rows stay as they are.
pub open spec fn close_all(rows: Seq<TaskView>, end_time: int) -> Seq<TaskView> {
    Seq::new(
        rows.len(),
        |i: int|
            if rows[i].is_active() {
                rows[i].closed_at(end_time)
            } else {
                rows[i]
            },
    )
}

/// The table in the middle of [`close_all`]: the rows before `k` are done.
spec fn closed_up_to(rows: Seq<TaskView>, end_time: int, k: int) -> Seq<TaskView> {
    Seq::new(
        rows.len(),
        |i: int|
            if i < k && rows[i].is_active() {
                rows[i].closed_at(end_time)
            } else {
                rows[i]
            },
    )
}

impl TaskStore {
    /// The largest id handed out so far; 0 for a table that never held a
    /// row.
    pub closed spec fn last_id(&self) -> int {
        self.last_id as int
    }

    /// The table invariant: the rows are valid and no id lies above
    /// [`TaskStore::last_id`].
    pub open spec fn well_formed(&self) -> bool {
        &&& rows_valid(self@)
        &&& forall|i: int| 0 <= i < self@.len() ==> (#[trigger] self@[i]).id <= self.last_id()
        &&& i64::MIN <= self.last_id() <= i64::MAX
        &&& self@.len() <= usize::MAX
    }

    /// An empty table.
    pub fn new() -> (store: TaskStore)
        ensures
            store.well_formed(),
            store@ == Seq::<TaskView>::empty(),
            store.last_id() == 0,
    {
        let store = TaskStore { records: Vec::new(), last_id: 0 };
        store
    }

    /// A table with the given rows, which must be valid and sorted by id;
    /// otherwise the rows are refused with `StoreFailure`.
    pub fn from_records(records: Vec<TaskRecord>) -> (made: Result<TaskStore, MetronomeError>)
        ensures
            match made {
                Ok(store) => {
                    &&& rows_valid(views(records@))
                    &&& store.well_formed()
                    &&& store@ == views(records@)
                    &&& store.last_id() == if records@.len() == 0 {
                        0
                    } else {
                        records@.last().id as int
                    }
                },
                Err(e) => e == MetronomeError::StoreFailure && !rows_valid(views(records@)),
            },
    {
        let n: usize = records.len();
        let mut i: usize = 0;
        while i < n
            invariant
                i <= n,
                n == records@.len(),
                rows_valid(views(records@).take(i as int)),
            decreases n - i,
        {
            let ghost rows = views(records@);
            if !records[i].is_valid() {
                return Err(MetronomeError::StoreFailure);
            }
            if i > 0 && records[i - 1].id >= records[i].id {
                assert(!(rows[i - 1].id < rows[i as int].id));
                return Err(MetronomeError::StoreFailure);
            }
            assert(rows_valid(rows.take(i + 1))) by {
                let before = rows.take(i as int);
                let after = rows.take(i + 1);
                assert forall|a: int, b: int| 0 <= a < b < after.len() implies (
                #[trigger] after[a]).id < (#[trigger] after[b]).id by {
                    if b < i {
                        assert(before[a].id < before[b].id);
                    } else if a < i - 1 {
                        assert(before[a].id < before[i - 1].id);
                    }
                }
                assert forall|a: int| 0 <= a < after.len() implies (
                #[trigger] after[a]).well_formed() by {
                    if a < i {
                        assert(before[a].well_formed());
                    }
                }
            }
            i += 1;
        }
        assert(views(records@).take(n as int) =~= views(records@));
        let last_id: i64 = if n == 0 {
            0
        } else {
            records[n - 1].id
        };
        let store = TaskStore { records, last_id };
        assert forall|a: int| 0 <= a < store@.len() implies (#[trigger] store@[a]).id
            <= store.last_id() by {
            if a < n - 1 {
                assert(store@[a].id < store@[n - 1].id);
            }
        }
        Ok(store)
    }

    /// The rows of the table, oldest id first.
    pub fn records(&self) -> (rows: &Vec<TaskRecord>)
        ensures
            views(rows@) == self@,
    {
        &self.records
    }

    /// The number of rows.
    pub fn len(&self) -> (n: usize)
        ensures
            n == self@.len(),
    {
        self.records.len()
    }

    /// Adds the record of a task that starts at `start_time` and returns its
    /// id, the successor of the last id. An empty name is refused with
    /// `InvalidInput`; when the ids are used up, the table refuses with
    /// `StoreFailure`. A refusal leaves the table as it was.
    pub fn insert(&mut self, name: String, category: String, start_time: i64) -> (added: Result<
        i64,
        MetronomeError,
    >)
        requires
            old(self).well_formed(),
        ensures
            final(self).well_formed(),
            if name@.len() == 0 {
                &&& added == Err::<i64, MetronomeError>(MetronomeError::InvalidInput)
                &&& unchanged(*old(self), *final(self))
            } else if old(self).last_id() == i64::MAX {
                &&& added == Err::<i64, MetronomeError>(MetronomeError::StoreFailure)
                &&& unchanged(*old(self), *final(self))
            } else {
                &&& added == Ok::<i64, MetronomeError>((old(self).last_id() + 1) as i64)
                &&& final(self).last_id() == old(self).last_id() + 1
                &&& final(self)@ == old(self)@.push(
                    TaskView::started(
                        old(self).last_id() + 1,
                        name@,
                        category@,
                        start_time as int,
                    ),
                )
            },
    {
        if name.as_str().is_empty() {
            return Err(MetronomeError::InvalidInput);
        }
        if self.last_id == i64::MAX {
            return Err(MetronomeError::StoreFailure);
        }
        let id: i64 = self.last_id + 1;
        let ghost row = TaskView::started(id as int, name@, category@, start_time as int);
        self.last_id = id;
        self.records.push(
            TaskRecord {
                id,
                name,
                category,
                start_time,
                end_time: None,
                total_time: None,
                status: Status::Active,
            },
        );
        assert(self@ =~= old(self)@.push(row));
        assert(self.records@.len() == self.records.len());
        Ok(id)
    }

    /// Finds the record that ending the task `name` acts on, if there is an
    /// active record with that name.
    pub fn find_active_by_name(&self, name: &String) -> (found: Option<usize>)
        ensures
            match found {
                Some(i) => is_end_target(self@, name@, i as int),
                None => forall|j: int| !is_active_named(self@, name@, j),
            },
    {
        let n: usize = self.records.len();
        let mut best: Option<usize> = None;
        let mut i: usize = 0;
        while i < n
            invariant
                i <= n,
                n == self@.len(),
                n == self.records@.len(),
                match best {
                    Some(b) => {
                        &&& b < i
                        &&& is_active_named(self@, name@, b as int)
                        &&& forall|j: int|
                            j < i && #[trigger] is_active_named(self@, name@, j)
                                ==> at_least_as_recent(self@, b as int, j)
                    },
                    None => forall|j: int| j < i ==> !is_active_named(self@, name@, j),
                },
            decreases n - i,
        {
            let row = &self.records[i];
            if row.status == Status::Active && row.name == *name {
                let newer = match best {
                    Some(b) => self.records[b].start_time <= row.start_time,
                    None => true,
                };
                if newer {
                    best = Some(i);
                }
            }
            i += 1;
        }
        best
    }

    /// Completes the active record in row `index` at `end_time` and returns
    /// its total time. Where the row does not exist or is not active,
    /// the answer is `NotFound`; where the record cannot be completed at
    /// that time, it is `StoreFailure`. A refusal leaves the table as it
    /// was.
    pub fn complete(&mut self, index: usize, end_time: i64) -> (done: Result<i64, MetronomeError>)
        requires
            old(self).well_formed(),
        ensures
            final(self).well_formed(),
            final(self).last_id() == old(self).last_id(),
            if !(index < old(self)@.len() && old(self)@[index as int].is_active()) {
                &&& done == Err::<i64, MetronomeError>(MetronomeError::NotFound)
                &&& final(self)@ == old(self)@
            } else if !old(self)@[index as int].can_close_at(end_time as int) {
                &&& done == Err::<i64, MetronomeError>(MetronomeError::StoreFailure)
                &&& final(self)@ == old(self)@
            } else {
                &&& done == Ok::<i64, MetronomeError>(
                    (end_time - old(self)@[index as int].start_time) as i64,
                )
                &&& final(self)@ == old(self)@.update(
                    index as int,
                    old(self)@[index as int].closed_at(end_time as int),
                )
            },
    {
        if index >= self.records.len() {
            return Err(MetronomeError::NotFound);
        }
        if self.records[index].status != Status::Active {
            return Err(MetronomeError::NotFound);
        }
        let start_time: i64 = self.records[index].start_time;
        if end_time < start_time {
            return Err(MetronomeError::StoreFailure);
        }
        match end_time.checked_sub(start_time) {
            Some(total) => {
                self.records[index].end_time = Some(end_time);
                self.records[index].total_time = Some(total);
                self.records[index].status = Status::Complete;
                assert(self@ =~= old(self)@.update(
                    index as int,
                    old(self)@[index as int].closed_at(end_time as int),
                ));
                Ok(total)
            },
            None => Err(MetronomeError::StoreFailure),
        }
    }

    /// Finds the active record that started last, if any record is active.
    pub fn find_last_active(&self) -> (found: Option<usize>)
        ensures
            match found {
                Some(i) => is_last_active(self@, i as int),
                None => forall|j: int| 0 <= j < self@.len() ==> !(#[trigger] self@[j]).is_active(),
            },
    {
        let n: usize = self.records.len();
        let mut best: Option<usize> = None;
        let mut i: usize = 0;
        while i < n
            invariant
                i <= n,
                n == self@.len(),
                n == self.records@.len(),
                match best {
                    Some(b) => {
                        &&& b < i
                        &&& self@[b as int].is_active()
                        &&& forall|j: int|
                            0 <= j < i && (#[trigger] self@[j]).is_active() ==> at_least_as_recent(
                                self@,
                                b as int,
                                j,
                            )
                    },
                    None => forall|j: int| 0 <= j < i ==> !(#[trigger] self@[j]).is_active(),
                },
            decreases n - i,
        {
            let row = &self.records[i];
            if row.status == Status::Active {
                let newer = match best {
                    Some(b) => self.records[b].start_time <= row.start_time,
                    None => true,
                };
                if newer {
                    best = Some(i);
                }
            }
            i += 1;
        }
        best
    }

    /// Completes every active record at the one time `end_time` and returns
    /// how many there were. Where one of them cannot be completed at that
    /// time, nothing is changed and the answer is `StoreFailure`.
    pub fn close_all_active(&mut self, end_time: i64) -> (done: Result<usize, MetronomeError>)
        requires
            old(self).well_formed(),
        ensures
            final(self).well_formed(),
            final(self).last_id() == old(self).last_id(),
            if all_can_close_at(old(self)@, end_time as int) {
                &&& done == Ok::<usize, MetronomeError>(active_rows(old(self)@).len() as usize)
                &&& final(self)@ == close_all(old(self)@, end_time as int)
            } else {
                &&& done == Err::<usize, MetronomeError>(MetronomeError::StoreFailure)
                &&& final(self)@ == old(self)@
            },
    {
        let n: usize = self.records.len();
        let mut i: usize = 0;
        while i < n
            invariant
                i <= n,
                n == self@.len(),
                n == self.records@.len(),
                *self == *old(self),
                old(self).well_formed(),
                forall|j: int|
                    0 <= j < i && (#[trigger] self@[j]).is_active() ==> self@[j].can_close_at(
                        end_time as int,
                    ),
            decreases n - i,
        {
            let row = &self.records[i];
            assert(row@ == self@[i as int]);
            if row.status == Status::Active {
                if end_time < row.start_time || end_time.checked_sub(row.start_time).is_none() {
                    return Err(MetronomeError::StoreFailure);
                }
            }
            i += 1;
        }
        let mut count: usize = 0;
        let mut k: usize = 0;
        assert(active_rows(old(self)@.take(0)).len() == 0) by {
            lemma_filter_none(old(self)@.take(0), is_active());
        }
        while k < n
            invariant
                k <= n,
                n == old(self)@.len(),
                n == self.records@.len(),
                self.last_id() == old(self).last_id(),
                old(self).well_formed(),
                all_can_close_at(old(self)@, end_time as int),
                count == active_rows(old(self)@.take(k as int)).len(),
                count <= k,
                self@ == closed_up_to(old(self)@, end_time as int, k as int),
            decreases n - k,
        {
            let ghost before = self@;
            proof {
                lemma_filter_take_next(old(self)@, is_active(), k as int);
            }
            if self.records[k].status == Status::Active {
                let total: i64 = end_time - self.records[k].start_time;
                self.records[k].end_time = Some(end_time);
                self.records[k].total_time = Some(total);
                self.records[k].status = Status::Complete;
                count += 1;
                assert(self@ =~= before.update(k as int, before[k as int].closed_at(end_time as int)));
            }
            k += 1;
        }
        assert(old(self)@.take(n as int) =~= old(self)@);
        Ok(count)
    }
}

} // verus!
