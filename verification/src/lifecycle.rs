//! The life of a task: it is started, and later ended, once.
//!
//! Ending a task by name acts on one record only: the active record of that
//! name that started last (the one with the largest id where several
//! started at the same time). A name whose records are all complete is
//! answered with `NotFound`, so that a complete record never changes again.
//!
//! A task cannot end before it started: where the end time lies before the
//! start time, or the span does not fit in an `i64`, the operation is
//! refused with `StoreFailure` and the table stays as it was.

use crate::clock::current_timestamp;
use crate::record::TaskView;
use crate::results::{MetronomeError, MetronomeResults};
use crate::store::{
    active_rows, all_can_close_at, close_all, is_active_named, is_end_target, is_last_active,
    unchanged, TaskStore,
};
use crate::tasktime::TaskTime;
use crate::text::text_of;
use vstd::prelude::*;
use vstd::string::StringExecFns;

verus! {

/// The category of a task that is started without one.
pub open spec fn default_category() -> Seq<char> {
    "Misc"@
}

/// What starting a task at time `now` does: the table gains an active record
/// with the next id, the given name, the given category or else the default
/// one, and `now` as its start time; the answer holds the start time. An
/// empty name is refused with `InvalidInput`, and a table whose ids are used
/// up refuses with `StoreFailure`; a refusal changes nothing.
pub open spec fn start_outcome(
    before: TaskStore,
    after: TaskStore,
    name: Seq<char>,
    category: Option<Seq<char>>,
    now: int,
    outcome: Result<MetronomeResults, MetronomeError>,
) -> bool {
    if name.len() == 0 {
        &&& outcome == Err::<MetronomeResults, MetronomeError>(MetronomeError::InvalidInput)
        &&& unchanged(before, after)
    } else if before.last_id() >= i64::MAX {
        &&& outcome == Err::<MetronomeResults, MetronomeError>(MetronomeError::StoreFailure)
        &&& unchanged(before, after)
    } else {
        &&& outcome == Ok::<MetronomeResults, MetronomeError>(
            MetronomeResults::StartTask(now as i64),
        )
        &&& after.last_id() == before.last_id() + 1
        &&& after@ == before@.push(
            TaskView::started(
                before.last_id() + 1,
                name,
                match category {
                    Some(given) => given,
                    None => default_category(),
                },
                now,
            ),
        )
    }
}

/// What ending row `i` at time `now` does: where the record can be
/// completed at that time, it is, no other row changes, and the answer
/// holds the end time, the total time and its breakdown; else the table
/// stays as it was and the answer is `StoreFailure`.
pub open spec fn closes_row(
    before: Seq<TaskView>,
    after: Seq<TaskView>,
    i: int,
    now: int,
    outcome: Result<MetronomeResults, MetronomeError>,
) -> bool {
    if before[i].can_close_at(now) {
        let total = (now - before[i].start_time) as i64;
        &&& after == before.update(i, before[i].closed_at(now))
        &&& outcome == Ok::<MetronomeResults, MetronomeError>(
            MetronomeResults::EndTask(now as i64, total, TaskTime::of_seconds(total)),
        )
    } else {
        &&& after == before
        &&& outcome == Err::<MetronomeResults, MetronomeError>(MetronomeError::StoreFailure)
    }
}

/// What ending the task `name` at time `now` does. An empty name is refused
/// with `InvalidInput`; where no active record has the name, the answer is
/// `NotFound`; else the operation acts on the record that
/// [`is_end_target`] singles out, as [`closes_row`] says.
pub open spec fn end_outcome(
    before: TaskStore,
    after: TaskStore,
    name: Seq<char>,
    now: int,
    outcome: Result<MetronomeResults, MetronomeError>,
) -> bool {
    &&& after.last_id() == before.last_id()
    &&& if name.len() == 0 {
        &&& outcome == Err::<MetronomeResults, MetronomeError>(MetronomeError::InvalidInput)
        &&& after@ == before@
    } else if forall|j: int| !is_active_named(before@, name, j) {
        &&& outcome == Err::<MetronomeResults, MetronomeError>(MetronomeError::NotFound)
        &&& after@ == before@
    } else {
        exists|i: int|
            #[trigger] is_end_target(before@, name, i) && closes_row(
                before@,
                after@,
                i,
                now,
                outcome,
            )
    }
}

/// What ending the task that started last does at time `now`. Where no
/// record is active, the answer is `NotFound`; else the operation acts on
/// the record that [`is_last_active`] singles out, as [`closes_row`] says.
pub open spec fn end_last_outcome(
    before: TaskStore,
    after: TaskStore,
    now: int,
    outcome: Result<MetronomeResults, MetronomeError>,
) -> bool {
    &&& after.last_id() == before.last_id()
    &&& if forall|j: int| 0 <= j < before@.len() ==> !(#[trigger] before@[j]).is_active() {
        &&& outcome == Err::<MetronomeResults, MetronomeError>(MetronomeError::NotFound)
        &&& after@ == before@
    } else {
        exists|i: int|
            #[trigger] is_last_active(before@, i) && closes_row(before@, after@, i, now, outcome)
    }
}

/// What ending all active tasks at time `now` does: every active record is
/// completed at `now`, the others stay as they are, and the answer holds
/// the number of records that were active. Where one of the active records
/// cannot be completed at that time, none is, and the answer is
/// `StoreFailure`.
pub open spec fn end_all_outcome(
    before: TaskStore,
    after: TaskStore,
    now: int,
    outcome: Result<MetronomeResults, MetronomeError>,
) -> bool {
    &&& after.last_id() == before.last_id()
    &&& if all_can_close_at(before@, now) {
        &&& outcome == Ok::<MetronomeResults, MetronomeError>(
            MetronomeResults::EndAllActive(active_rows(before@).len() as usize),
        )
        &&& after@ == close_all(before@, now)
    } else {
        &&& outcome == Err::<MetronomeResults, MetronomeError>(MetronomeError::StoreFailure)
        &&& after@ == before@
    }
}

/// Two rows cannot both be the record that ending a task by name acts on.
pub proof fn lemma_end_target_unique(rows: Seq<TaskView>, name: Seq<char>, i: int, j: int)
    requires
        is_end_target(rows, name, i),
        is_end_target(rows, name, j),
    ensures
        i == j,
{
}

/// The active record that started last is the one that ending a task by its
/// name acts on.
pub proof fn lemma_last_active_is_end_target(rows: Seq<TaskView>, i: int)
    requires
        is_last_active(rows, i),
    ensures
        is_end_target(rows, rows[i].name, i),
{
}

/// Starts a task at time `now`.
pub fn start_task_at(
    store: &mut TaskStore,
    task_name: &String,
    category: Option<&String>,
    now: i64,
) -> (outcome: Result<MetronomeResults, MetronomeError>)
    requires
        old(store).well_formed(),
    ensures
        final(store).well_formed(),
        start_outcome(
            *old(store),
            *final(store),
            task_name@,
            text_of(category),
            now as int,
            outcome,
        ),
{
    let category: String = match category {
        Some(given) => given.clone(),
        None => String::from_str("Misc"),
    };
    match store.insert(task_name.clone(), category, now) {
        Ok(_) => Ok(MetronomeResults::StartTask(now)),
        Err(e) => Err(e),
    }
}

/// Ends the task `task_name` at time `now`.
pub fn end_task_at(store: &mut TaskStore, task_name: &String, now: i64) -> (outcome: Result<
    MetronomeResults,
    MetronomeError,
>)
    requires
        old(store).well_formed(),
    ensures
        final(store).well_formed(),
        end_outcome(*old(store), *final(store), task_name@, now as int, outcome),
{
    if task_name.as_str().is_empty() {
        return Err(MetronomeError::InvalidInput);
    }
    match store.find_active_by_name(task_name) {
        Some(i) => {
            match store.complete(i, now) {
                Ok(total) => Ok(MetronomeResults::EndTask(now, total, TaskTime::from(total))),
                Err(e) => Err(e),
            }
        },
        None => Err(MetronomeError::NotFound),
    }
}

/// Ends, at time `now`, the active task that started last. The record is
/// looked up and the task is then ended by its name.
pub fn end_last_at(store: &mut TaskStore, now: i64) -> (outcome: Result<
    MetronomeResults,
    MetronomeError,
>)
    requires
        old(store).well_formed(),
    ensures
        final(store).well_formed(),
        end_last_outcome(*old(store), *final(store), now as int, outcome),
{
    match store.find_last_active() {
        Some(i) => {
            let ghost rows = store@;
            let last_task: String = store.records()[i].name.clone();
            proof {
                lemma_last_active_is_end_target(rows, i as int);
            }
            let outcome = end_task_at(store, &last_task, now);
            proof {
                let k = choose|k: int|
                    #[trigger] is_end_target(rows, last_task@, k) && closes_row(
                        rows,
                        store@,
                        k,
                        now as int,
                        outcome,
                    );
                lemma_end_target_unique(rows, last_task@, i as int, k);
            }
            outcome
        },
        None => Err(MetronomeError::NotFound),
    }
}

/// Ends all active tasks at the one time `now`.
pub fn end_all_active_at(store: &mut TaskStore, now: i64) -> (outcome: Result<
    MetronomeResults,
    MetronomeError,
>)
    requires
        old(store).well_formed(),
    ensures
        final(store).well_formed(),
        end_all_outcome(*old(store), *final(store), now as int, outcome),
{
    match store.close_all_active(now) {
        Ok(count) => Ok(MetronomeResults::EndAllActive(count)),
        Err(e) => Err(e),
    }
}

/// Starts a task at the present time.
pub fn start_task(store: &mut TaskStore, task_name: &String, category: Option<&String>) -> (outcome:
    Result<MetronomeResults, MetronomeError>)
    requires
        old(store).well_formed(),
    ensures
        final(store).well_formed(),
        exists|now: i64|
            start_outcome(
                *old(store),
                *final(store),
                task_name@,
                text_of(category),
                now as int,
                outcome,
            ),
{
    start_task_at(store, task_name, category, current_timestamp())
}

/// Ends the task `task_name` at the present time.
pub fn end_task(store: &mut TaskStore, task_name: &String) -> (outcome: Result<
    MetronomeResults,
    MetronomeError,
>)
    requires
        old(store).well_formed(),
    ensures
        final(store).well_formed(),
        exists|now: i64| end_outcome(*old(store), *final(store), task_name@, now as int, outcome),
{
    end_task_at(store, task_name, current_timestamp())
}

/// Ends, at the present time, the active task that started last.
pub fn end_last(store: &mut TaskStore) -> (outcome: Result<MetronomeResults, MetronomeError>)
    requires
        old(store).well_formed(),
    ensures
        final(store).well_formed(),
        exists|now: i64| end_last_outcome(*old(store), *final(store), now as int, outcome),
{
    end_last_at(store, current_timestamp())
}

/// Ends all active tasks at the present time.
pub fn end_all_active(store: &mut TaskStore) -> (outcome: Result<MetronomeResults, MetronomeError>)
    requires
        old(store).well_formed(),
    ensures
        final(store).well_formed(),
        exists|now: i64| end_all_outcome(*old(store), *final(store), now as int, outcome),
{
    end_all_active_at(store, current_timestamp())
}

} // verus!
