//! Listings and totals over the record table, restricted to a time window.

use crate::clock::current_timestamp;
use crate::filters::Filter;
use crate::record::{views, Status, TaskRecord, TaskView};
use crate::results::{MetronomeError, MetronomeResults};
use crate::sequences::{lemma_filter_none, lemma_filter_take_next};
use crate::store::TaskStore;
use vstd::prelude::*;

verus! {

/// Whether a row has the wanted status; without a wanted status every row
/// has.
pub open spec fn status_matches(row: TaskView, status: Option<Status>) -> bool {
    match status {
        Some(wanted) => row.status == wanted,
        None => true,
    }
}

/// The test that a listing applies to each row: the status is the wanted
/// one, and the task started after the cutoff.
pub open spec fn listed(status: Option<Status>, cutoff: int) -> spec_fn(TaskView) -> bool {
    |row: TaskView| status_matches(row, status) && row.start_time > cutoff
}

/// The rows of a listing: those that pass [`listed`], in table order, which
/// is the order of their ids.
pub open spec fn select(rows: Seq<TaskView>, status: Option<Status>, cutoff: int) -> Seq<
    TaskView,
> {
    rows.filter(listed(status, cutoff))
}

/// `listing` is the listing of `rows` for a status and a cutoff: it holds
/// the selected rows and their number.
pub open spec fn is_listing(
    listing: Result<MetronomeResults, MetronomeError>,
    rows: Seq<TaskView>,
    status: Option<Status>,
    cutoff: int,
) -> bool {
    &&& listing matches Ok(MetronomeResults::List(count, found))
    &&& count == found@.len()
    &&& views(found@) == select(rows, status, cutoff)
}

fn has_status(row: &TaskRecord, status: Option<Status>) -> (same: bool)
    ensures
        same == status_matches(row@, status),
{
    match status {
        Some(wanted) => row.status == wanted,
        None => true,
    }
}

fn list_rows(store: &TaskStore, status: Option<Status>, filter: Filter, now: i64) -> (listing:
    Result<MetronomeResults, MetronomeError>)
    ensures
        is_listing(listing, store@, status, filter.cutoff(now as int)),
{
    let rows = store.records();
    let ghost wanted = listed(status, filter.cutoff(now as int));
    let mut found: Vec<TaskRecord> = Vec::new();
    let n: usize = rows.len();
    let mut i: usize = 0;
    proof {
        lemma_filter_none(store@.take(0), wanted);
    }
    while i < n
        invariant
            i <= n,
            n == rows@.len(),
            views(rows@) == store@,
            wanted == listed(status, filter.cutoff(now as int)),
            views(found@) == store@.take(i as int).filter(wanted),
        decreases n - i,
    {
        let row = &rows[i];
        proof {
            lemma_filter_take_next(store@, wanted, i as int);
        }
        if has_status(row, status) && filter.admits(now, row.start_time) {
            found.push(row.clone());
        }
        i += 1;
    }
    assert(store@.take(n as int) =~= store@);
    Ok(MetronomeResults::List(found.len(), found))
}

/// Lists the active tasks that started inside the window of `filter` at
/// time `now`.
pub fn list_active_at(store: &TaskStore, filter: Filter, now: i64) -> (listing: Result<
    MetronomeResults,
    MetronomeError,
>)
    ensures
        is_listing(listing, store@, Some(Status::Active), filter.cutoff(now as int)),
{
    list_rows(store, Some(Status::Active), filter, now)
}

/// Lists the completed tasks that started inside the window of `filter` at
/// time `now`.
pub fn list_complete_at(store: &TaskStore, filter: Filter, now: i64) -> (listing: Result<
    MetronomeResults,
    MetronomeError,
>)
    ensures
        is_listing(listing, store@, Some(Status::Complete), filter.cutoff(now as int)),
{
    list_rows(store, Some(Status::Complete), filter, now)
}

/// Lists all tasks that started inside the window of `filter` at time
/// `now`.
pub fn list_all_at(store: &TaskStore, filter: Filter, now: i64) -> (listing: Result<
    MetronomeResults,
    MetronomeError,
>)
    ensures
        is_listing(listing, store@, None, filter.cutoff(now as int)),
{
    list_rows(store, None, filter, now)
}

/// Lists the active tasks that started inside the window of `filter` at the
/// present time.
pub fn list_active(store: &TaskStore, filter: Filter) -> (listing: Result<
    MetronomeResults,
    MetronomeError,
>)
    ensures
        exists|now: i64|
            is_listing(listing, store@, Some(Status::Active), filter.cutoff(now as int)),
{
    list_active_at(store, filter, current_timestamp())
}

/// Lists the completed tasks that started inside the window of `filter` at
/// the present time.
pub fn list_complete(store: &TaskStore, filter: Filter) -> (listing: Result<
    MetronomeResults,
    MetronomeError,
>)
    ensures
        exists|now: i64|
            is_listing(listing, store@, Some(Status::Complete), filter.cutoff(now as int)),
{
    list_complete_at(store, filter, current_timestamp())
}

/// Lists all tasks that started inside the window of `filter` at the present
/// time.
pub fn list_all(store: &TaskStore, filter: Filter) -> (listing: Result<
    MetronomeResults,
    MetronomeError,
>)
    ensures
        exists|now: i64| is_listing(listing, store@, None, filter.cutoff(now as int)),
{
    list_all_at(store, filter, current_timestamp())
}

} // verus!
