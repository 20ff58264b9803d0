//! Time per category: the completed tasks of a time window, grouped by
//! category, with the largest total first.

use crate::clock::current_timestamp;
use crate::filters::Filter;
use crate::record::{views, Status, TaskRecord, TaskView};
use crate::results::{CategoryTotal, MetronomeError, MetronomeResults};
use crate::store::TaskStore;
use crate::text::{
    lemma_lex_less_total, lemma_lex_less_transitive, lex_less, text_less, text_of,
};
use vstd::prelude::*;

verus! {

/// A category total as a mathematical value.
pub struct TotalView {
    pub category: Seq<char>,
    pub total_seconds: int,
}

impl View for CategoryTotal {
    type V = TotalView;

    open spec fn view(&self) -> TotalView {
        TotalView { category: self.category@, total_seconds: self.total_seconds as int }
    }
}

/// The views of a sequence of category totals, in the same order.
pub open spec fn total_views(groups: Seq<CategoryTotal>) -> Seq<TotalView> {
    Seq::new(groups.len(), |k: int| groups[k]@)
}

/// Whether a row counts toward the totals: it is complete, so that it has a
/// total time; it started after the cutoff; and where a category is asked
/// for, it has exactly that category.
pub open spec fn counted(row: TaskView, cutoff: int, category: Option<Seq<char>>) -> bool {
    &&& row.is_complete()
    &&& row.total_time is Some
    &&& row.start_time > cutoff
    &&& category matches Some(wanted) ==> row.category == wanted
}

/// The time that the counted rows of the category `name` add up to.
pub open spec fn category_sum(
    rows: Seq<TaskView>,
    cutoff: int,
    category: Option<Seq<char>>,
    name: Seq<char>,
) -> int
    decreases rows.len(),
{
    if rows.len() == 0 {
        0
    } else {
        category_sum(rows.drop_last(), cutoff, category, name) + if counted(
            rows.last(),
            cutoff,
            category,
        ) && rows.last().category == name {
            rows.last().total_time->0
        } else {
            0
        }
    }
}

/// Some counted row has the category `name`.
pub open spec fn has_counted(
    rows: Seq<TaskView>,
    cutoff: int,
    category: Option<Seq<char>>,
    name: Seq<char>,
) -> bool {
    exists|i: int|
        0 <= i < rows.len() && counted(#[trigger] rows[i], cutoff, category) && rows[i].category
            == name
}

/// Some group stands for the category `name`.
pub open spec fn has_group(groups: Seq<TotalView>, name: Seq<char>) -> bool {
    exists|k: int| 0 <= k < groups.len() && (#[trigger] groups[k]).category == name
}

/// The order of the groups in a summary: the larger total comes first, and
/// of two equal totals the category whose name comes first.
pub open spec fn ranks_before(a: TotalView, b: TotalView) -> bool {
    a.total_seconds > b.total_seconds || (a.total_seconds == b.total_seconds && lex_less(
        a.category,
        b.category,
    ))
}

/// `groups` holds one group for each category that has a counted row, with
/// the time that the category adds up to, and nothing else.
pub open spec fn is_tally(
    groups: Seq<TotalView>,
    rows: Seq<TaskView>,
    cutoff: int,
    category: Option<Seq<char>>,
) -> bool {
    &&& forall|k: int|
        0 <= k < groups.len() ==> has_counted(rows, cutoff, category, (#[trigger] groups[k]).category)
            && groups[k].total_seconds == category_sum(rows, cutoff, category, groups[k].category)
    &&& forall|i: int|
        0 <= i < rows.len() && counted(#[trigger] rows[i], cutoff, category) ==> has_group(
            groups,
            rows[i].category,
        )
    &&& forall|k: int, l: int|
        0 <= k < l < groups.len() ==> (#[trigger] groups[k]).category != (
        #[trigger] groups[l]).category
}

/// `groups` is the summary of `rows`: the tally of the counted rows, in the
/// order that [`ranks_before`] gives.
pub open spec fn is_summary(
    groups: Seq<TotalView>,
    rows: Seq<TaskView>,
    cutoff: int,
    category: Option<Seq<char>>,
) -> bool {
    &&& is_tally(groups, rows, cutoff, category)
    &&& forall|k: int, l: int|
        0 <= k < l < groups.len() ==> ranks_before(#[trigger] groups[k], #[trigger] groups[l])
}

/// The time of some category does not fit in an `i64`.
pub open spec fn sum_overflows(rows: Seq<TaskView>, cutoff: int, category: Option<Seq<char>>) -> bool {
    exists|name: Seq<char>| #[trigger] category_sum(rows, cutoff, category, name) > i64::MAX
}

/// What summing the task times does: the answer holds the summary; where
/// the time of a category does not fit in an `i64`, the answer is
/// `StoreFailure`.
pub open spec fn sum_outcome(
    rows: Seq<TaskView>,
    cutoff: int,
    category: Option<Seq<char>>,
    outcome: Result<MetronomeResults, MetronomeError>,
) -> bool {
    if sum_overflows(rows, cutoff, category) {
        outcome == Err::<MetronomeResults, MetronomeError>(MetronomeError::StoreFailure)
    } else {
        &&& outcome matches Ok(MetronomeResults::SumTaskTimes(groups))
        &&& is_summary(total_views(groups@), rows, cutoff, category)
    }
}

/// One row more adds its total time to the sum of its category and leaves
/// the other sums as they are.
proof fn lemma_sum_next(
    rows: Seq<TaskView>,
    cutoff: int,
    category: Option<Seq<char>>,
    name: Seq<char>,
    i: int,
)
    requires
        0 <= i < rows.len(),
    ensures
        category_sum(rows.take(i + 1), cutoff, category, name) == category_sum(
            rows.take(i),
            cutoff,
            category,
            name,
        ) + if counted(rows[i], cutoff, category) && rows[i].category == name {
            rows[i].total_time->0
        } else {
            0
        },
{
    assert(rows.take(i + 1).drop_last() =~= rows.take(i));
}

/// A category without counted rows adds up to nothing.
proof fn lemma_sum_without_rows(
    rows: Seq<TaskView>,
    cutoff: int,
    category: Option<Seq<char>>,
    name: Seq<char>,
)
    requires
        !has_counted(rows, cutoff, category, name),
    ensures
        category_sum(rows, cutoff, category, name) == 0,
    decreases rows.len(),
{
    if rows.len() > 0 {
        let rest = rows.drop_last();
        assert forall|i: int| 0 <= i < rest.len() implies !(counted(
            #[trigger] rest[i],
            cutoff,
            category,
        ) && rest[i].category == name) by {
            assert(rest[i] == rows[i]);
        }
        lemma_sum_without_rows(rest, cutoff, category, name);
    }
}

/// Where no total time is negative, the sum over the first rows of a table
/// is at most the sum over all of them.
proof fn lemma_sum_grows(
    rows: Seq<TaskView>,
    cutoff: int,
    category: Option<Seq<char>>,
    name: Seq<char>,
    i: int,
)
    requires
        0 <= i <= rows.len(),
        forall|j: int| 0 <= j < rows.len() ==> (#[trigger] rows[j]).well_formed(),
    ensures
        category_sum(rows.take(i), cutoff, category, name) <= category_sum(
            rows,
            cutoff,
            category,
            name,
        ),
    decreases rows.len() - i,
{
    if i == rows.len() {
        assert(rows.take(i) =~= rows);
    } else {
        lemma_sum_next(rows, cutoff, category, name, i);
        lemma_sum_grows(rows, cutoff, category, name, i + 1);
    }
}

/// A row that does not count leaves the tally as it is.
proof fn lemma_tally_skip(
    groups: Seq<TotalView>,
    rows: Seq<TaskView>,
    cutoff: int,
    category: Option<Seq<char>>,
    i: int,
)
    requires
        0 <= i < rows.len(),
        is_tally(groups, rows.take(i), cutoff, category),
        !counted(rows[i], cutoff, category),
    ensures
        is_tally(groups, rows.take(i + 1), cutoff, category),
{
    let before = rows.take(i);
    let after = rows.take(i + 1);
    assert forall|k: int| 0 <= k < groups.len() implies has_counted(
        after,
        cutoff,
        category,
        (#[trigger] groups[k]).category,
    ) && groups[k].total_seconds == category_sum(after, cutoff, category, groups[k].category) by {
        let name = groups[k].category;
        let j = choose|j: int|
            0 <= j < before.len() && counted(#[trigger] before[j], cutoff, category) && before[j].category
                == name;
        assert(after[j] == before[j]);
        lemma_sum_next(rows, cutoff, category, name, i);
    }
    assert forall|j: int|
        0 <= j < after.len() && counted(#[trigger] after[j], cutoff, category) implies has_group(
        groups,
        after[j].category,
    ) by {
        assert(after[j] == before[j]);
    }
}

/// A counted row whose category has the group `k` adds its total time to
/// that group.
proof fn lemma_tally_add(
    groups: Seq<TotalView>,
    rows: Seq<TaskView>,
    cutoff: int,
    category: Option<Seq<char>>,
    i: int,
    k: int,
)
    requires
        0 <= i < rows.len(),
        is_tally(groups, rows.take(i), cutoff, category),
        counted(rows[i], cutoff, category),
        0 <= k < groups.len(),
        groups[k].category == rows[i].category,
    ensures
        is_tally(
            groups.update(
                k,
                TotalView {
                    category: groups[k].category,
                    total_seconds: groups[k].total_seconds + rows[i].total_time->0,
                },
            ),
            rows.take(i + 1),
            cutoff,
            category,
        ),
{
    let before = rows.take(i);
    let after = rows.take(i + 1);
    let updated = groups.update(
        k,
        TotalView {
            category: groups[k].category,
            total_seconds: groups[k].total_seconds + rows[i].total_time->0,
        },
    );
    assert forall|m: int| 0 <= m < updated.len() implies has_counted(
        after,
        cutoff,
        category,
        (#[trigger] updated[m]).category,
    ) && updated[m].total_seconds == category_sum(after, cutoff, category, updated[m].category) by {
        let name = groups[m].category;
        let j = choose|j: int|
            0 <= j < before.len() && counted(#[trigger] before[j], cutoff, category) && before[j].category
                == name;
        assert(after[j] == before[j]);
        lemma_sum_next(rows, cutoff, category, name, i);
        if m != k {
            assert(groups[m].category != groups[k].category);
        }
    }
    assert forall|j: int|
        0 <= j < after.len() && counted(#[trigger] after[j], cutoff, category) implies has_group(
        updated,
        after[j].category,
    ) by {
        if j < i {
            let m = choose|m: int|
                0 <= m < groups.len() && (#[trigger] groups[m]).category == before[j].category;
            assert(updated[m].category == after[j].category);
        } else {
            assert(updated[k].category == after[j].category);
        }
    }
    assert forall|m: int, l: int| 0 <= m < l < updated.len() implies (
    #[trigger] updated[m]).category != (#[trigger] updated[l]).category by {
        assert(groups[m].category != groups[l].category);
    }
}

/// A counted row whose category has no group yet opens one.
proof fn lemma_tally_new(
    groups: Seq<TotalView>,
    rows: Seq<TaskView>,
    cutoff: int,
    category: Option<Seq<char>>,
    i: int,
)
    requires
        0 <= i < rows.len(),
        is_tally(groups, rows.take(i), cutoff, category),
        counted(rows[i], cutoff, category),
        !has_group(groups, rows[i].category),
    ensures
        is_tally(
            groups.push(
                TotalView { category: rows[i].category, total_seconds: rows[i].total_time->0 },
            ),
            rows.take(i + 1),
            cutoff,
            category,
        ),
{
    let before = rows.take(i);
    let after = rows.take(i + 1);
    let opened = TotalView { category: rows[i].category, total_seconds: rows[i].total_time->0 };
    let grown = groups.push(opened);
    assert forall|m: int| 0 <= m < grown.len() implies has_counted(
        after,
        cutoff,
        category,
        (#[trigger] grown[m]).category,
    ) && grown[m].total_seconds == category_sum(after, cutoff, category, grown[m].category) by {
        let name = grown[m].category;
        lemma_sum_next(rows, cutoff, category, name, i);
        if m < groups.len() {
            let j = choose|j: int|
                0 <= j < before.len() && counted(#[trigger] before[j], cutoff, category)
                    && before[j].category == name;
            assert(after[j] == before[j]);
        } else {
            assert(!has_counted(before, cutoff, category, name)) by {
                if has_counted(before, cutoff, category, name) {
                    let j = choose|j: int|
                        0 <= j < before.len() && counted(#[trigger] before[j], cutoff, category)
                            && before[j].category == name;
                    assert(has_group(groups, before[j].category));
                }
            }
            lemma_sum_without_rows(before, cutoff, category, name);
        }
    }
    assert forall|j: int|
        0 <= j < after.len() && counted(#[trigger] after[j], cutoff, category) implies has_group(
        grown,
        after[j].category,
    ) by {
        if j < i {
            let m = choose|m: int|
                0 <= m < groups.len() && (#[trigger] groups[m]).category == before[j].category;
            assert(grown[m].category == after[j].category);
        } else {
            assert(grown[groups.len() as int].category == after[j].category);
        }
    }
    assert forall|m: int, l: int| 0 <= m < l < grown.len() implies (#[trigger] grown[m]).category
        != (#[trigger] grown[l]).category by {
        if l < groups.len() {
            assert(groups[m].category != groups[l].category);
        } else {
            assert(groups[m].category != rows[i].category);
        }
    }
}

/// With a tally of the whole table at hand, no category overflows: each sum
/// is the total of a group, or nothing.
proof fn lemma_tally_fits(
    groups: Seq<CategoryTotal>,
    rows: Seq<TaskView>,
    cutoff: int,
    category: Option<Seq<char>>,
)
    requires
        is_tally(total_views(groups), rows, cutoff, category),
    ensures
        !sum_overflows(rows, cutoff, category),
{
    let tallied = total_views(groups);
    assert forall|name: Seq<char>| #[trigger]
        category_sum(rows, cutoff, category, name) <= i64::MAX by {
        if has_counted(rows, cutoff, category, name) {
            let i = choose|i: int|
                0 <= i < rows.len() && counted(#[trigger] rows[i], cutoff, category) && rows[i].category
                    == name;
            assert(has_group(tallied, rows[i].category));
            let k = choose|k: int|
                0 <= k < tallied.len() && (#[trigger] tallied[k]).category == name;
            assert(tallied[k].total_seconds == groups[k].total_seconds);
        } else {
            lemma_sum_without_rows(rows, cutoff, category, name);
        }
    }
}

/// The total time of a row that counts toward the totals; `None` for a row
/// that does not count.
fn counted_total(row: &TaskRecord, filter: Filter, now: i64, category: Option<&String>) -> (total:
    Option<i64>)
    ensures
        match total {
            Some(seconds) => {
                &&& counted(row@, filter.cutoff(now as int), text_of(category))
                &&& row@.total_time == Some(seconds as int)
            },
            None => !counted(row@, filter.cutoff(now as int), text_of(category)),
        },
{
    if row.status != Status::Complete || !filter.admits(now, row.start_time) {
        return None;
    }
    let wanted: bool = match category {
        Some(wanted) => row.category == *wanted,
        None => true,
    };
    if wanted {
        row.total_time
    } else {
        None
    }
}

fn find_group(groups: &Vec<CategoryTotal>, name: &String) -> (found: Option<usize>)
    ensures
        match found {
            Some(k) => k < groups@.len() && groups@[k as int]@.category == name@,
            None => !has_group(total_views(groups@), name@),
        },
{
    let mut k: usize = 0;
    while k < groups.len()
        invariant
            k <= groups@.len(),
            forall|m: int| 0 <= m < k ==> (#[trigger] total_views(groups@)[m]).category != name@,
        decreases groups@.len() - k,
    {
        if groups[k].category == *name {
            return Some(k);
        }
        k += 1;
    }
    None
}

/// Adds up the counted rows of each category, in the order in which the
/// categories first occur.
fn tally(store: &TaskStore, filter: Filter, now: i64, category: Option<&String>) -> (made: Result<
    Vec<CategoryTotal>,
    MetronomeError,
>)
    requires
        store.well_formed(),
    ensures
        match made {
            Ok(groups) => {
                &&& !sum_overflows(store@, filter.cutoff(now as int), text_of(category))
                &&& is_tally(
                    total_views(groups@),
                    store@,
                    filter.cutoff(now as int),
                    text_of(category),
                )
            },
            Err(e) => {
                &&& e == MetronomeError::StoreFailure
                &&& sum_overflows(store@, filter.cutoff(now as int), text_of(category))
            },
        },
{
    let rows = store.records();
    let ghost cutoff = filter.cutoff(now as int);
    let ghost wanted = text_of(category);
    let n: usize = rows.len();
    let mut groups: Vec<CategoryTotal> = Vec::new();
    let mut i: usize = 0;
    while i < n
        invariant
            i <= n,
            n == rows@.len(),
            views(rows@) == store@,
            store.well_formed(),
            cutoff == filter.cutoff(now as int),
            wanted == text_of(category),
            is_tally(total_views(groups@), store@.take(i as int), cutoff, wanted),
        decreases n - i,
    {
        let row = &rows[i];
        let ghost tallied = total_views(groups@);
        match counted_total(row, filter, now, category) {
            Some(total) => match find_group(&groups, &row.category) {
                Some(k) => {
                    match groups[k].total_seconds.checked_add(total) {
                        Some(sum) => {
                            groups[k].total_seconds = sum;
                            proof {
                                lemma_tally_add(tallied, store@, cutoff, wanted, i as int, k as int);
                                assert(total_views(groups@) =~= tallied.update(
                                    k as int,
                                    TotalView {
                                        category: tallied[k as int].category,
                                        total_seconds: tallied[k as int].total_seconds
                                            + store@[i as int].total_time->0,
                                    },
                                ));
                            }
                        },
                        None => {
                            proof {
                                lemma_sum_next(store@, cutoff, wanted, row@.category, i as int);
                                lemma_sum_grows(store@, cutoff, wanted, row@.category, i + 1);
                            }
                            return Err(MetronomeError::StoreFailure);
                        },
                    }
                },
                None => {
                    groups.push(CategoryTotal { category: row.category.clone(), total_seconds: total });
                    proof {
                        lemma_tally_new(tallied, store@, cutoff, wanted, i as int);
                        assert(total_views(groups@) =~= tallied.push(
                            TotalView {
                                category: store@[i as int].category,
                                total_seconds: store@[i as int].total_time->0,
                            },
                        ));
                    }
                },
            },
            None => {
                proof {
                    lemma_tally_skip(tallied, store@, cutoff, wanted, i as int);
                }
            },
        }
        i += 1;
    }
    proof {
        assert(store@.take(n as int) =~= store@);
        lemma_tally_fits(groups@, store@, cutoff, wanted);
    }
    Ok(groups)
}

/// `ranked` holds the groups of `groups`, each once, in the order that
/// [`ranks_before`] gives.
spec fn is_ranking(ranked: Seq<TotalView>, groups: Seq<TotalView>) -> bool {
    &&& forall|k: int| 0 <= k < ranked.len() ==> groups.contains(#[trigger] ranked[k])
    &&& forall|l: int| 0 <= l < groups.len() ==> ranked.contains(#[trigger] groups[l])
    &&& forall|k: int, l: int|
        0 <= k < l < ranked.len() ==> ranks_before(#[trigger] ranked[k], #[trigger] ranked[l])
}

/// The order of the groups is transitive.
proof fn lemma_ranks_before_transitive(a: TotalView, b: TotalView, c: TotalView)
    requires
        ranks_before(a, b),
        ranks_before(b, c),
    ensures
        ranks_before(a, c),
{
    if a.total_seconds == b.total_seconds && b.total_seconds == c.total_seconds {
        lemma_lex_less_transitive(a.category, b.category, c.category);
    }
}

/// Of two groups with different categories one comes before the other.
proof fn lemma_ranks_before_total(a: TotalView, b: TotalView)
    requires
        a.category != b.category,
    ensures
        ranks_before(a, b) || ranks_before(b, a),
{
    lemma_lex_less_total(a.category, b.category);
}

/// A tally put in order is the summary.
proof fn lemma_ranked_tally_is_summary(
    ranked: Seq<TotalView>,
    groups: Seq<TotalView>,
    rows: Seq<TaskView>,
    cutoff: int,
    category: Option<Seq<char>>,
)
    requires
        is_tally(groups, rows, cutoff, category),
        is_ranking(ranked, groups),
    ensures
        is_summary(ranked, rows, cutoff, category),
{
    assert forall|k: int| 0 <= k < ranked.len() implies has_counted(
        rows,
        cutoff,
        category,
        (#[trigger] ranked[k]).category,
    ) && ranked[k].total_seconds == category_sum(rows, cutoff, category, ranked[k].category) by {
        assert(groups.contains(ranked[k]));
        let l = choose|l: int| 0 <= l < groups.len() && groups[l] == ranked[k];
        assert(groups[l].category == ranked[k].category);
    }
    assert forall|i: int|
        0 <= i < rows.len() && counted(#[trigger] rows[i], cutoff, category) implies has_group(
        ranked,
        rows[i].category,
    ) by {
        let l = choose|l: int|
            0 <= l < groups.len() && (#[trigger] groups[l]).category == rows[i].category;
        assert(ranked.contains(groups[l]));
        let k = choose|k: int| 0 <= k < ranked.len() && ranked[k] == groups[l];
        assert(ranked[k].category == rows[i].category);
    }
    assert forall|k: int, l: int| 0 <= k < l < ranked.len() implies (#[trigger] ranked[k]).category
        != (#[trigger] ranked[l]).category by {
        if ranked[k].category == ranked[l].category {
            assert(!lex_less(ranked[k].category, ranked[l].category));
        }
    }
}

/// The group `group` stands in `groups` at the place `from` or behind it.
spec fn stands_from(groups: Seq<TotalView>, from: int, group: TotalView) -> bool {
    exists|l: int| from <= l < groups.len() && 0 <= l && groups[l] == group
}

fn outranks(a: &CategoryTotal, b: &CategoryTotal) -> (first: bool)
    ensures
        first == ranks_before(a@, b@),
{
    a.total_seconds > b.total_seconds || (a.total_seconds == b.total_seconds && text_less(
        a.category.as_str(),
        b.category.as_str(),
    ))
}

/// Puts the groups of a tally in the order of a summary.
fn rank(groups: Vec<CategoryTotal>) -> (ranked: Vec<CategoryTotal>)
    requires
        forall|k: int, l: int|
            0 <= k < l < groups@.len() ==> (#[trigger] groups@[k])@.category != (
            #[trigger] groups@[l])@.category,
    ensures
        is_ranking(total_views(ranked@), total_views(groups@)),
{
    let ghost given = total_views(groups@);
    let mut rest = groups;
    let mut ranked: Vec<CategoryTotal> = Vec::new();
    loop
        invariant
            rest@.len() <= given.len(),
            total_views(rest@) == given.take(rest@.len() as int),
            forall|k: int, l: int|
                0 <= k < l < given.len() ==> (#[trigger] given[k]).category != (
                #[trigger] given[l]).category,
            forall|k: int|
                0 <= k < ranked@.len() ==> stands_from(
                    given,
                    rest@.len() as int,
                    #[trigger] total_views(ranked@)[k],
                ),
            forall|l: int|
                rest@.len() <= l < given.len() ==> total_views(ranked@).contains(
                    #[trigger] given[l],
                ),
            forall|k: int, l: int|
                0 <= k < l < ranked@.len() ==> ranks_before(
                    #[trigger] total_views(ranked@)[k],
                    #[trigger] total_views(ranked@)[l],
                ),
        ensures
            rest@.len() == 0,
        decreases rest@.len(),
    {
        let ghost before = total_views(ranked@);
        let ghost m = rest@.len() - 1;
        let ghost unranked = total_views(rest@);
        let group = match rest.pop() {
            Some(group) => group,
            None => {
                break ;
            },
        };
        assert(unranked[m] == given[m]);
        let mut p: usize = 0;
        while p < ranked.len() && outranks(&ranked[p], &group)
            invariant
                p <= ranked@.len(),
                before == total_views(ranked@),
                forall|q: int| 0 <= q < p ==> ranks_before(#[trigger] before[q], group@),
            decreases ranked@.len() - p,
        {
            p += 1;
        }
        ranked.insert(p, group);
        proof {
            let after = total_views(ranked@);
            assert forall|k: int| 0 <= k < after.len() implies stands_from(
                given,
                m,
                #[trigger] after[k],
            ) by {
                if k < p {
                    assert(stands_from(given, m + 1, before[k]));
                } else if k == p {
                    assert(given[m] == after[k]);
                } else {
                    assert(stands_from(given, m + 1, before[k - 1]));
                }
            }
            assert forall|l: int| m <= l < given.len() implies after.contains(
                #[trigger] given[l],
            ) by {
                if l == m {
                    assert(after[p as int] == given[l]);
                } else {
                    let k = choose|k: int| 0 <= k < before.len() && before[k] == given[l];
                    if k < p {
                        assert(after[k] == given[l]);
                    } else {
                        assert(after[k + 1] == given[l]);
                    }
                }
            }
            assert forall|k: int, l: int| 0 <= k < l < after.len() implies ranks_before(
                #[trigger] after[k],
                #[trigger] after[l],
            ) by {
                if l < p {
                    assert(after[k] == before[k] && after[l] == before[l]);
                } else if l == p {
                    assert(after[k] == before[k]);
                } else if k > p {
                    assert(after[k] == before[k - 1] && after[l] == before[l - 1]);
                } else {
                    // `after[l]` stood at or behind the place where the scan stopped.
                    let stop = before[p as int];
                    assert(stands_from(given, m + 1, stop));
                    let j = choose|j: int| m + 1 <= j < given.len() && given[j] == stop;
                    assert(given[m].category != given[j].category);
                    lemma_ranks_before_total(given[m], stop);
                    if l - 1 > p {
                        lemma_ranks_before_transitive(given[m], stop, before[l - 1]);
                    }
                    if k < p {
                        lemma_ranks_before_transitive(before[k], given[m], after[l]);
                    }
                }
            }
        }
    }
    ranked
}

/// Sums the time of the completed tasks that started inside the window of
/// `filter` at time `now`, per category, or for the one category given.
pub fn sum_task_times_at(
    store: &TaskStore,
    filter: Filter,
    category: Option<&String>,
    now: i64,
) -> (outcome: Result<MetronomeResults, MetronomeError>)
    requires
        store.well_formed(),
    ensures
        sum_outcome(store@, filter.cutoff(now as int), text_of(category), outcome),
{
    match tally(store, filter, now, category) {
        Ok(groups) => {
            let ghost tallied = total_views(groups@);
            assert forall|k: int, l: int| 0 <= k < l < groups@.len() implies (
            #[trigger] groups@[k])@.category != (#[trigger] groups@[l])@.category by {
                assert(tallied[k].category != tallied[l].category);
            }
            let ranked = rank(groups);
            proof {
                lemma_ranked_tally_is_summary(
                    total_views(ranked@),
                    tallied,
                    store@,
                    filter.cutoff(now as int),
                    text_of(category),
                );
            }
            Ok(MetronomeResults::SumTaskTimes(ranked))
        },
        Err(e) => Err(e),
    }
}

/// Sums the time of the completed tasks that started inside the window of
/// `filter` at the present time, per category, or for the one category
/// given.
pub fn sum_task_times(store: &TaskStore, filter: Filter, category: Option<&String>) -> (outcome:
    Result<MetronomeResults, MetronomeError>)
    requires
        store.well_formed(),
    ensures
        exists|now: i64|
            sum_outcome(store@, filter.cutoff(now as int), text_of(category), outcome),
{
    sum_task_times_at(store, filter, category, current_timestamp())
}

} // verus!
