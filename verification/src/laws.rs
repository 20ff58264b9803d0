//! Laws that relate the operations of the library to one another, each
//! proved from the specifications that the operations' contracts use.

use crate::filters::{lemma_spellings, Filter};
use crate::lifecycle::{
    closes_row, end_all_outcome, end_last_outcome, end_outcome, lemma_end_target_unique,
    lemma_last_active_is_end_target, start_outcome,
};
use crate::query::{listed, select};
use crate::record::{Status, TaskView};
use crate::results::{MetronomeError, MetronomeResults};
use crate::sequences::{lemma_filter_all, lemma_filter_none};
use crate::store::{
    active_rows, all_can_close_at, close_all, is_active, is_active_named, is_end_target,
    is_last_active, rows_valid, TaskStore,
};
use crate::tasktime::TaskTime;
use crate::text::{lemma_lex_less_irreflexive, lemma_lex_less_transitive};
use crate::totals::{counted, has_group, is_summary, ranks_before, TotalView};
use vstd::prelude::*;

verus! {

/// A task that is started without a category is recorded under `Misc`, as
/// an active record that starts at the time of the call; the records that
/// were there stay as they are. The task needs a name, and the table an id
/// to give.
pub proof fn law_start_without_category(
    before: TaskStore,
    after: TaskStore,
    name: Seq<char>,
    now: i64,
    outcome: Result<MetronomeResults, MetronomeError>,
)
    requires
        start_outcome(before, after, name, None, now as int, outcome),
        name.len() > 0,
        before.last_id() < i64::MAX,
    ensures
        outcome == Ok::<MetronomeResults, MetronomeError>(MetronomeResults::StartTask(now)),
        after@.len() == before@.len() + 1,
        after@.take(before@.len() as int) == before@,
        after@.last().name == name,
        after@.last().category == "Misc"@,
        after@.last().status == Status::Active,
        after@.last().start_time == now,
        after@.last().end_time is None,
        after@.last().total_time is None,
{
}

/// A task that is started with a category is recorded under exactly that
/// category. The task needs a name, and the table an id to give.
pub proof fn law_start_with_category(
    before: TaskStore,
    after: TaskStore,
    name: Seq<char>,
    category: Seq<char>,
    now: i64,
    outcome: Result<MetronomeResults, MetronomeError>,
)
    requires
        start_outcome(before, after, name, Some(category), now as int, outcome),
        name.len() > 0,
        before.last_id() < i64::MAX,
    ensures
        outcome == Ok::<MetronomeResults, MetronomeError>(MetronomeResults::StartTask(now)),
        after@.len() == before@.len() + 1,
        after@.take(before@.len() as int) == before@,
        after@.last().name == name,
        after@.last().category == category,
        after@.last().status == Status::Active,
        after@.last().start_time == now,
{
}

/// Ending a task completes the one record that the operation acts on: its
/// end time is the time of the call, its total time is exactly the span
/// from its start to its end, and its status is complete. Nothing else
/// changes. The end must not lie before the start, and the span must fit
/// in an `i64`.
pub proof fn law_end_sets_total_time(
    before: TaskStore,
    after: TaskStore,
    name: Seq<char>,
    now: i64,
    outcome: Result<MetronomeResults, MetronomeError>,
    i: int,
)
    requires
        before.well_formed(),
        end_outcome(before, after, name, now as int, outcome),
        is_end_target(before@, name, i),
        before@[i].can_close_at(now as int),
    ensures
        outcome matches Ok(MetronomeResults::EndTask(end_time, total_time, time)) && end_time
            == now && total_time == now - before@[i].start_time && time == TaskTime::of_seconds(
            total_time,
        ),
        after@.len() == before@.len(),
        after@[i].status == Status::Complete,
        after@[i].end_time == Some(now as int),
        after@[i].total_time == Some(now - before@[i].start_time),
        after@[i].id == before@[i].id,
        after@[i].name == before@[i].name,
        after@[i].category == before@[i].category,
        after@[i].start_time == before@[i].start_time,
        forall|j: int| 0 <= j < before@.len() && j != i ==> after@[j] == before@[j],
{
    let k = choose|k: int|
        #[trigger] is_end_target(before@, name, k) && closes_row(
            before@,
            after@,
            k,
            now as int,
            outcome,
        );
    lemma_end_target_unique(before@, name, i, k);
}

/// A task can be ended once for each time it was started: when the only
/// active record of a name has been ended, ending that name again finds
/// nothing and changes nothing.
pub proof fn law_second_end_finds_nothing(
    first: TaskStore,
    second: TaskStore,
    third: TaskStore,
    name: Seq<char>,
    now: int,
    later: int,
    outcome: Result<MetronomeResults, MetronomeError>,
    again: Result<MetronomeResults, MetronomeError>,
)
    requires
        first.well_formed(),
        end_outcome(first, second, name, now, outcome),
        outcome is Ok,
        forall|j: int, k: int|
            is_active_named(first@, name, j) && is_active_named(first@, name, k) ==> j == k,
        end_outcome(second, third, name, later, again),
    ensures
        again == Err::<MetronomeResults, MetronomeError>(MetronomeError::NotFound),
        third@ == second@,
{
    let i = choose|i: int|
        #[trigger] is_end_target(first@, name, i) && closes_row(first@, second@, i, now, outcome);
    assert(is_active_named(first@, name, i));
    assert forall|j: int| !is_active_named(second@, name, j) by {
        if is_active_named(second@, name, j) {
            assert(is_active_named(first@, name, j));
        }
    }
}

/// Ending all active tasks reports how many records were active, leaves no
/// record active, and gives each record that was active the time of the
/// call as its end time and exactly the span from its start to its end as
/// its total time; the other records stay as they are. No active record
/// may have started after the time of the call, and each span must fit in
/// an `i64`.
pub proof fn law_end_all_completes_every_active_record(
    before: TaskStore,
    after: TaskStore,
    now: int,
    outcome: Result<MetronomeResults, MetronomeError>,
)
    requires
        before.well_formed(),
        end_all_outcome(before, after, now, outcome),
        all_can_close_at(before@, now),
    ensures
        outcome matches Ok(MetronomeResults::EndAllActive(count)) && count == active_rows(
            before@,
        ).len(),
        active_rows(after@).len() == 0,
        after@.len() == before@.len(),
        forall|i: int|
            0 <= i < before@.len() && (#[trigger] before@[i]).is_active() ==> {
                &&& after@[i].status == Status::Complete
                &&& after@[i].end_time == Some(now)
                &&& after@[i].total_time == Some(now - before@[i].start_time)
                &&& after@[i].id == before@[i].id
            },
        forall|i: int|
            0 <= i < before@.len() && !(#[trigger] before@[i]).is_active() ==> after@[i]
                == before@[i],
{
    before@.lemma_filter_len(is_active());
    lemma_filter_none(after@, is_active());
}

/// Without a time window, and with every start time after the epoch, the
/// listing of all tasks is the whole table: every record ever started.
pub proof fn law_list_all_is_the_whole_table(rows: Seq<TaskView>, now: int)
    requires
        forall|i: int| 0 <= i < rows.len() ==> (#[trigger] rows[i]).start_time > 0,
    ensures
        select(rows, None, Filter::All.cutoff(now)) == rows,
{
    lemma_filter_all(rows, listed(None, Filter::All.cutoff(now)));
}

/// For one cutoff, the listing of the active tasks and the listing of the
/// completed tasks split the listing of all tasks: each listed record is in
/// exactly one of the two, and none is left out.
pub proof fn law_listings_partition(rows: Seq<TaskView>, cutoff: int)
    ensures
        select(rows, None, cutoff).to_multiset() == select(
            rows,
            Some(Status::Active),
            cutoff,
        ).to_multiset().add(select(rows, Some(Status::Complete), cutoff).to_multiset()),
        select(rows, None, cutoff).len() == select(rows, Some(Status::Active), cutoff).len()
            + select(rows, Some(Status::Complete), cutoff).len(),
        forall|row: TaskView|
            !(select(rows, Some(Status::Active), cutoff).contains(row) && select(
                rows,
                Some(Status::Complete),
                cutoff,
            ).contains(row)),
    decreases rows.len(),
{
    broadcast use {
        vstd::seq_lib::to_multiset_build,
        vstd::seq_lib::to_multiset_contains,
        vstd::multiset::group_multiset_axioms,
    };

    let all = listed(None, cutoff);
    let active = listed(Some(Status::Active), cutoff);
    let complete = listed(Some(Status::Complete), cutoff);
    if rows.len() == 0 {
        reveal(Seq::filter);
    } else {
        let rest = rows.drop_last();
        let last = rows.last();
        law_listings_partition(rest, cutoff);
        assert(rest.push(last) =~= rows);
        rest.lemma_filter_push(last, all);
        rest.lemma_filter_push(last, active);
        rest.lemma_filter_push(last, complete);
    }
    assert forall|row: TaskView|
        !(rows.filter(active).contains(row) && rows.filter(complete).contains(row)) by {
        if rows.filter(active).contains(row) && rows.filter(complete).contains(row) {
            rows.lemma_filter_contains_rev(active, row);
            rows.lemma_filter_contains_rev(complete, row);
        }
    }
}

/// The cutoff that each selector gives at time `now`: the spellings of a
/// day reach back 86400 seconds, those of a week 7 days, of a month 30
/// days, of a quarter 13 weeks, of half a year 26 weeks and of a year 365
/// days; `all` has the cutoff 0.
pub proof fn law_selector_cutoffs(now: int)
    ensures
        Filter::select_spec(Some("d"@)).cutoff(now) == now - 86_400,
        Filter::select_spec(Some("day"@)).cutoff(now) == now - 86_400,
        Filter::select_spec(Some("w"@)).cutoff(now) == now - 7 * 86_400,
        Filter::select_spec(Some("week"@)).cutoff(now) == now - 7 * 86_400,
        Filter::select_spec(Some("m"@)).cutoff(now) == now - 30 * 86_400,
        Filter::select_spec(Some("month"@)).cutoff(now) == now - 30 * 86_400,
        Filter::select_spec(Some("q"@)).cutoff(now) == now - 13 * 7 * 86_400,
        Filter::select_spec(Some("quarter"@)).cutoff(now) == now - 13 * 7 * 86_400,
        Filter::select_spec(Some("s"@)).cutoff(now) == now - 26 * 7 * 86_400,
        Filter::select_spec(Some("semi"@)).cutoff(now) == now - 26 * 7 * 86_400,
        Filter::select_spec(Some("semiannual"@)).cutoff(now) == now - 26 * 7 * 86_400,
        Filter::select_spec(Some("y"@)).cutoff(now) == now - 365 * 86_400,
        Filter::select_spec(Some("year"@)).cutoff(now) == now - 365 * 86_400,
        Filter::select_spec(Some("all"@)).cutoff(now) == 0,
{
    lemma_spellings();
}

/// A selector that is not recognized, and no selector at all, give the
/// cutoff 0 at every time.
pub proof fn law_unrecognized_selector_has_no_cutoff(selector: Option<Seq<char>>, now: int)
    requires
        selector matches Some(text) ==> Filter::parse_spec(text) is None,
    ensures
        Filter::select_spec(selector) == Filter::All,
        Filter::select_spec(selector).cutoff(now) == 0,
{
}

/// Of two groups at most one comes before the other, and none before
/// itself.
proof fn lemma_ranks_before_asymmetric(a: TotalView, b: TotalView)
    requires
        ranks_before(a, b),
    ensures
        !ranks_before(b, a),
        a != b,
{
    lemma_lex_less_irreflexive(a.category);
    if ranks_before(b, a) {
        lemma_lex_less_transitive(a.category, b.category, a.category);
    }
}

/// Each group of one summary occurs in every other summary of the same
/// rows.
proof fn lemma_summaries_share_groups(
    first: Seq<TotalView>,
    second: Seq<TotalView>,
    rows: Seq<TaskView>,
    cutoff: int,
    category: Option<Seq<char>>,
    k: int,
)
    requires
        is_summary(first, rows, cutoff, category),
        is_summary(second, rows, cutoff, category),
        0 <= k < first.len(),
    ensures
        second.contains(first[k]),
{
    let name = first[k].category;
    let i = choose|i: int|
        0 <= i < rows.len() && counted(#[trigger] rows[i], cutoff, category) && rows[i].category
            == name;
    assert(has_group(second, rows[i].category));
    let l = choose|l: int| 0 <= l < second.len() && (#[trigger] second[l]).category == name;
    assert(second[l] == first[k]);
}

/// Two summaries of the same rows agree on their first `k` groups.
proof fn lemma_summaries_agree(
    first: Seq<TotalView>,
    second: Seq<TotalView>,
    rows: Seq<TaskView>,
    cutoff: int,
    category: Option<Seq<char>>,
    k: int,
)
    requires
        is_summary(first, rows, cutoff, category),
        is_summary(second, rows, cutoff, category),
        0 <= k <= first.len(),
    ensures
        k <= second.len(),
        forall|j: int| 0 <= j < k ==> first[j] == second[j],
    decreases k,
{
    if k > 0 {
        lemma_summaries_agree(first, second, rows, cutoff, category, k - 1);
        let x = first[k - 1];
        lemma_summaries_share_groups(first, second, rows, cutoff, category, k - 1);
        let l = choose|l: int| 0 <= l < second.len() && second[l] == x;
        if l < k - 1 {
            lemma_ranks_before_asymmetric(first[l], first[k - 1]);
        }
        let y = second[k - 1];
        lemma_summaries_share_groups(second, first, rows, cutoff, category, k - 1);
        let m = choose|m: int| 0 <= m < first.len() && first[m] == y;
        if m < k - 1 {
            lemma_ranks_before_asymmetric(second[m], second[k - 1]);
        }
        if l > k - 1 && m > k - 1 {
            lemma_ranks_before_asymmetric(x, y);
        }
    }
}

/// The rows, the cutoff and the category asked for determine the summary:
/// two summaries of the same rows are the same sequence of groups.
pub proof fn law_summary_is_unique(
    first: Seq<TotalView>,
    second: Seq<TotalView>,
    rows: Seq<TaskView>,
    cutoff: int,
    category: Option<Seq<char>>,
)
    requires
        is_summary(first, rows, cutoff, category),
        is_summary(second, rows, cutoff, category),
    ensures
        first == second,
{
    lemma_summaries_agree(first, second, rows, cutoff, category, first.len() as int);
    lemma_summaries_agree(second, first, rows, cutoff, category, second.len() as int);
}

/// Ending the task that started last is ending a task by name: where a
/// record is active, the operation does what ending the name of the active
/// record that started last does, and that record is the only one it can
/// act on.
pub proof fn law_end_last_ends_by_name(
    before: TaskStore,
    after: TaskStore,
    now: int,
    outcome: Result<MetronomeResults, MetronomeError>,
    i: int,
)
    requires
        before.well_formed(),
        end_last_outcome(before, after, now, outcome),
        is_last_active(before@, i),
    ensures
        end_outcome(before, after, before@[i].name, now, outcome),
        forall|j: int| is_last_active(before@, j) ==> j == i,
{
    let k = choose|k: int|
        #[trigger] is_last_active(before@, k) && closes_row(before@, after@, k, now, outcome);
    assert(k == i);
    lemma_last_active_is_end_target(before@, i);
}

/// A listing keeps the order of the table, which is the order of the ids:
/// of two listed records the one with the smaller id comes first. Each
/// listed record is a row of the table that passes the test of the
/// listing.
pub proof fn law_listing_is_ordered_by_id(
    rows: Seq<TaskView>,
    status: Option<Status>,
    cutoff: int,
)
    requires
        rows_valid(rows),
    ensures
        forall|i: int, j: int|
            0 <= i < j < select(rows, status, cutoff).len() ==> (#[trigger] select(
                rows,
                status,
                cutoff,
            )[i]).id < (#[trigger] select(rows, status, cutoff)[j]).id,
        forall|i: int|
            0 <= i < select(rows, status, cutoff).len() ==> rows.contains(
                #[trigger] select(rows, status, cutoff)[i],
            ) && listed(status, cutoff)(select(rows, status, cutoff)[i]),
    decreases rows.len(),
{
    let wanted = listed(status, cutoff);
    let found = rows.filter(wanted);
    assert forall|i: int| 0 <= i < found.len() implies rows.contains(#[trigger] found[i])
        && wanted(found[i]) by {
        rows.lemma_filter_pred(wanted, i);
        rows.lemma_filter_contains_rev(wanted, found[i]);
    }
    if rows.len() > 0 {
        let rest = rows.drop_last();
        let last = rows.last();
        assert(rest.push(last) =~= rows);
        rest.lemma_filter_push(last, wanted);
        assert(rows_valid(rest)) by {
            assert forall|i: int| 0 <= i < rest.len() implies (#[trigger] rest[i]).well_formed() by {
                assert(rest[i] == rows[i]);
            }
            assert forall|i: int, j: int| 0 <= i < j < rest.len() implies (#[trigger] rest[i]).id < (
            #[trigger] rest[j]).id by {
                assert(rest[i] == rows[i] && rest[j] == rows[j]);
            }
        }
        law_listing_is_ordered_by_id(rest, status, cutoff);
        let earlier = rest.filter(wanted);
        assert forall|i: int, j: int| 0 <= i < j < found.len() implies (#[trigger] found[i]).id < (
        #[trigger] found[j]).id by {
            if j < earlier.len() {
                assert(found[i] == earlier[i] && found[j] == earlier[j]);
            } else {
                let k = choose|k: int| 0 <= k < rest.len() && rest[k] == earlier[i];
                assert(rows[k].id < rows[rows.len() - 1].id);
            }
        }
    }
}

/// One operation on the table leads from `before` to `after`: a start, an
/// end by name, an end of the task that started last, or an end of all
/// active tasks, at some time and with some answer.
pub open spec fn is_step(before: TaskStore, after: TaskStore) -> bool {
    ||| exists|
        name: Seq<char>,
        category: Option<Seq<char>>,
        now: int,
        outcome: Result<MetronomeResults, MetronomeError>,
    | #[trigger]
        start_outcome(before, after, name, category, now, outcome)
    ||| exists|name: Seq<char>, now: int, outcome: Result<MetronomeResults, MetronomeError>| #[trigger]
        end_outcome(before, after, name, now, outcome)
    ||| exists|now: int, outcome: Result<MetronomeResults, MetronomeError>| #[trigger]
        end_last_outcome(before, after, now, outcome)
    ||| exists|now: int, outcome: Result<MetronomeResults, MetronomeError>| #[trigger]
        end_all_outcome(before, after, now, outcome)
}

/// No operation removes a record or reuses an id, and none changes the id,
/// the name, the category or the start time of a record. A complete record
/// never changes again; an active record stays active or becomes
/// complete.
pub proof fn law_history_is_kept(before: TaskStore, after: TaskStore)
    requires
        before.well_formed(),
        is_step(before, after),
    ensures
        after@.len() >= before@.len(),
        after.last_id() >= before.last_id(),
        forall|i: int|
            0 <= i < before@.len() ==> {
                &&& (#[trigger] after@[i]).id == before@[i].id
                &&& after@[i].name == before@[i].name
                &&& after@[i].category == before@[i].category
                &&& after@[i].start_time == before@[i].start_time
                &&& before@[i].is_complete() ==> after@[i] == before@[i]
            },
        forall|i: int| before@.len() <= i < after@.len() ==> (#[trigger] after@[i]).id > before.last_id(),
{
    if exists|name: Seq<char>, now: int, outcome: Result<MetronomeResults, MetronomeError>| #[trigger]
        end_outcome(before, after, name, now, outcome) {
        let (name, now, outcome) = choose|
            name: Seq<char>,
            now: int,
            outcome: Result<MetronomeResults, MetronomeError>,
        | #[trigger]
            end_outcome(before, after, name, now, outcome);
        if name.len() > 0 && exists|j: int| is_active_named(before@, name, j) {
            // The row that the operation acted on was active.
            let i = choose|i: int|
                #[trigger] is_end_target(before@, name, i) && closes_row(
                    before@,
                    after@,
                    i,
                    now,
                    outcome,
                );
            assert(is_active_named(before@, name, i));
        }
    }
}

} // verus!
