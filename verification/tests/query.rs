use metronome::{
    end_task_at, list_active_at, list_all_at, list_complete_at, start_task_at, sum_task_times_at,
    CategoryTotal, Filter, MetronomeError, MetronomeResults, Status, TaskRecord, TaskStore,
};

const NOW: i64 = 1_700_000_000;
const DAY: i64 = 86_400;
const WEEK: i64 = 7 * DAY;

fn name(text: &str) -> String {
    text.to_string()
}

fn rows_of(listing: Result<MetronomeResults, MetronomeError>) -> Vec<TaskRecord> {
    match listing {
        Ok(MetronomeResults::List(count, rows)) => {
            assert_eq!(count, rows.len());
            rows
        }
        other => panic!("no listing: {:?}", other),
    }
}

fn ids_of(listing: Result<MetronomeResults, MetronomeError>) -> Vec<i64> {
    rows_of(listing).iter().map(|row| row.id).collect()
}

fn groups_of(summary: Result<MetronomeResults, MetronomeError>) -> Vec<(String, i64)> {
    match summary {
        Ok(MetronomeResults::SumTaskTimes(groups)) => groups
            .into_iter()
            .map(|group| (group.category, group.total_seconds))
            .collect(),
        other => panic!("no summary: {:?}", other),
    }
}

fn group(category: &str, total_seconds: i64) -> (String, i64) {
    (category.to_string(), total_seconds)
}

fn complete_task(store: &mut TaskStore, task: &str, category: &str, start: i64, total: i64) {
    start_task_at(store, &name(task), Some(&name(category)), start).unwrap();
    end_task_at(store, &name(task), start + total).unwrap();
}

/// Five tasks; the second and the fourth are complete.
fn mixed_store() -> TaskStore {
    let mut store = TaskStore::new();
    for (i, task) in ["Task_A", "Task_B", "Task_C", "Task_D", "Task_E"].iter().enumerate() {
        let category = format!("Category_{}", task);
        start_task_at(&mut store, &name(task), Some(&category), 100 + i as i64).unwrap();
    }
    end_task_at(&mut store, &name("Task_B"), 500).unwrap();
    end_task_at(&mut store, &name("Task_D"), 600).unwrap();
    store
}

fn windows_store() -> TaskStore {
    let mut store = TaskStore::new();
    let starts = [
        NOW - 3600 * 22,
        NOW - 5 * DAY,
        NOW - 25 * DAY,
        NOW - 10 * WEEK,
        NOW - 23 * WEEK,
        NOW - 300 * DAY,
        NOW - 400 * DAY,
        10,
    ];
    for (i, start) in starts.iter().enumerate() {
        start_task_at(&mut store, &format!("task {}", i), None, *start).unwrap();
    }
    store
}

#[test]
fn list_all_without_window_is_the_whole_table() {
    let store = mixed_store();
    assert_eq!(&rows_of(list_all_at(&store, Filter::All, NOW)), store.records());
    assert_eq!(ids_of(list_all_at(&store, Filter::All, NOW)), vec![1, 2, 3, 4, 5]);
}

#[test]
fn list_active_and_complete_split_the_table() {
    let store = mixed_store();
    let active = rows_of(list_active_at(&store, Filter::All, NOW));
    let complete = rows_of(list_complete_at(&store, Filter::All, NOW));
    let all = rows_of(list_all_at(&store, Filter::All, NOW));
    assert_eq!(active.iter().map(|row| row.id).collect::<Vec<i64>>(), vec![1, 3, 5]);
    assert_eq!(complete.iter().map(|row| row.id).collect::<Vec<i64>>(), vec![2, 4]);
    assert_eq!(active.len() + complete.len(), all.len());
    assert!(active.iter().all(|row| row.status == Status::Active));
    assert!(complete.iter().all(|row| row.status == Status::Complete));
    for row in &all {
        let in_active = active.contains(row);
        let in_complete = complete.contains(row);
        assert!(in_active != in_complete);
    }
}

#[test]
fn list_rows_carry_the_whole_record() {
    let store = mixed_store();
    let complete = rows_of(list_complete_at(&store, Filter::All, NOW));
    assert_eq!(
        complete[0],
        TaskRecord {
            id: 2,
            name: name("Task_B"),
            category: name("Category_Task_B"),
            start_time: 101,
            end_time: Some(500),
            total_time: Some(399),
            status: Status::Complete,
        }
    );
}

#[test]
fn list_of_an_empty_table_is_empty() {
    let store = TaskStore::new();
    assert_eq!(
        list_all_at(&store, Filter::All, NOW),
        Ok(MetronomeResults::List(0, Vec::new()))
    );
    assert_eq!(
        list_active_at(&store, Filter::Day, NOW),
        Ok(MetronomeResults::List(0, Vec::new()))
    );
    assert_eq!(
        list_complete_at(&store, Filter::Year, NOW),
        Ok(MetronomeResults::List(0, Vec::new()))
    );
}

#[test]
fn list_all_by_window() {
    let store = windows_store();
    assert_eq!(ids_of(list_all_at(&store, Filter::Day, NOW)), vec![1]);
    assert_eq!(ids_of(list_all_at(&store, Filter::Week, NOW)), vec![1, 2]);
    assert_eq!(ids_of(list_all_at(&store, Filter::Month, NOW)), vec![1, 2, 3]);
    assert_eq!(ids_of(list_all_at(&store, Filter::Quarter, NOW)), vec![1, 2, 3, 4]);
    assert_eq!(ids_of(list_all_at(&store, Filter::SemiAnnual, NOW)), vec![1, 2, 3, 4, 5]);
    assert_eq!(ids_of(list_all_at(&store, Filter::Year, NOW)), vec![1, 2, 3, 4, 5, 6]);
    assert_eq!(
        ids_of(list_all_at(&store, Filter::All, NOW)),
        vec![1, 2, 3, 4, 5, 6, 7, 8]
    );
}

#[test]
fn list_window_and_status_apply_together() {
    let mut store = windows_store();
    end_task_at(&mut store, &name("task 1"), NOW).unwrap();
    end_task_at(&mut store, &name("task 6"), NOW).unwrap();
    assert_eq!(ids_of(list_active_at(&store, Filter::Week, NOW)), vec![1]);
    assert_eq!(ids_of(list_complete_at(&store, Filter::Week, NOW)), vec![2]);
    assert_eq!(ids_of(list_complete_at(&store, Filter::Day, NOW)), Vec::<i64>::new());
    assert_eq!(ids_of(list_complete_at(&store, Filter::All, NOW)), vec![2, 7]);
    assert_eq!(ids_of(list_active_at(&store, Filter::All, NOW)), vec![1, 3, 4, 5, 6, 8]);
}

#[test]
fn list_leaves_out_a_start_at_the_cutoff() {
    let mut store = TaskStore::new();
    start_task_at(&mut store, &name("before"), None, NOW - DAY - 1).unwrap();
    start_task_at(&mut store, &name("at"), None, NOW - DAY).unwrap();
    start_task_at(&mut store, &name("after"), None, NOW - DAY + 1).unwrap();
    assert_eq!(ids_of(list_all_at(&store, Filter::Day, NOW)), vec![3]);
    assert_eq!(ids_of(list_all_at(&store, Filter::Day, NOW - 1)), vec![2, 3]);
    assert_eq!(ids_of(list_all_at(&store, Filter::Day, NOW - 2)), vec![1, 2, 3]);
}

#[test]
fn list_without_window_leaves_out_starts_at_or_before_the_epoch() {
    let mut store = TaskStore::new();
    start_task_at(&mut store, &name("before"), None, -5).unwrap();
    start_task_at(&mut store, &name("at"), None, 0).unwrap();
    start_task_at(&mut store, &name("after"), None, 1).unwrap();
    assert_eq!(ids_of(list_all_at(&store, Filter::All, NOW)), vec![3]);
    assert_eq!(ids_of(list_all_at(&store, Filter::Day, DAY - 6)), vec![1, 2, 3]);
}

#[test]
fn list_keeps_future_starts() {
    let mut store = TaskStore::new();
    start_task_at(&mut store, &name("later"), None, NOW + 1000).unwrap();
    assert_eq!(ids_of(list_all_at(&store, Filter::Day, NOW)), vec![1]);
}

#[test]
fn list_where_the_cutoff_is_out_of_range() {
    let mut store = TaskStore::new();
    start_task_at(&mut store, &name("first"), None, i64::MIN).unwrap();
    start_task_at(&mut store, &name("second"), None, i64::MIN + 1).unwrap();
    assert_eq!(ids_of(list_all_at(&store, Filter::Day, i64::MIN)), vec![1, 2]);
    assert_eq!(ids_of(list_all_at(&store, Filter::Day, i64::MIN + DAY)), vec![2]);
}

#[test]
fn sum_groups_by_category_largest_first() {
    let mut store = TaskStore::new();
    complete_task(&mut store, "one", "A", 1000, 300);
    complete_task(&mut store, "two", "B", 1000, 65);
    complete_task(&mut store, "three", "A", 1000, 1800);
    assert_eq!(
        sum_task_times_at(&store, Filter::All, None, NOW),
        Ok(MetronomeResults::SumTaskTimes(vec![
            CategoryTotal { category: name("A"), total_seconds: 2100 },
            CategoryTotal { category: name("B"), total_seconds: 65 },
        ]))
    );
}

#[test]
fn sum_orders_by_total_not_by_first_occurrence() {
    let mut store = TaskStore::new();
    complete_task(&mut store, "one", "small", 1000, 1);
    complete_task(&mut store, "two", "large", 1000, 50);
    complete_task(&mut store, "three", "middle", 1000, 20);
    complete_task(&mut store, "four", "small", 1000, 2);
    assert_eq!(
        groups_of(sum_task_times_at(&store, Filter::All, None, NOW)),
        vec![group("large", 50), group("middle", 20), group("small", 3)]
    );
}

#[test]
fn sum_breaks_ties_by_category_name() {
    let mut store = TaskStore::new();
    complete_task(&mut store, "one", "pear", 1000, 30);
    complete_task(&mut store, "two", "apple", 1000, 10);
    complete_task(&mut store, "three", "fig", 1000, 30);
    complete_task(&mut store, "four", "apple", 1000, 20);
    complete_task(&mut store, "five", "Zebra", 1000, 30);
    complete_task(&mut store, "six", "kiwi", 1000, 31);
    assert_eq!(
        groups_of(sum_task_times_at(&store, Filter::All, None, NOW)),
        vec![
            group("kiwi", 31),
            group("Zebra", 30),
            group("apple", 30),
            group("fig", 30),
            group("pear", 30)
        ]
    );
}

#[test]
fn sum_leaves_out_active_records() {
    let mut store = TaskStore::new();
    complete_task(&mut store, "one", "A", 1000, 300);
    start_task_at(&mut store, &name("two"), Some(&name("A")), 1000).unwrap();
    start_task_at(&mut store, &name("three"), Some(&name("B")), 1000).unwrap();
    assert_eq!(
        groups_of(sum_task_times_at(&store, Filter::All, None, NOW)),
        vec![group("A", 300)]
    );
}

#[test]
fn sum_for_one_category() {
    let mut store = TaskStore::new();
    complete_task(&mut store, "one", "A", 1000, 300);
    complete_task(&mut store, "two", "B", 1000, 65);
    complete_task(&mut store, "three", "A", 1000, 1800);
    assert_eq!(
        groups_of(sum_task_times_at(&store, Filter::All, Some(&name("A")), NOW)),
        vec![group("A", 2100)]
    );
    assert_eq!(
        groups_of(sum_task_times_at(&store, Filter::All, Some(&name("B")), NOW)),
        vec![group("B", 65)]
    );
    assert_eq!(
        groups_of(sum_task_times_at(&store, Filter::All, Some(&name("a")), NOW)),
        Vec::new()
    );
}

#[test]
fn sum_of_an_empty_table_is_empty() {
    let store = TaskStore::new();
    assert_eq!(
        sum_task_times_at(&store, Filter::All, None, NOW),
        Ok(MetronomeResults::SumTaskTimes(Vec::new()))
    );
}

#[test]
fn sum_keeps_a_total_of_zero() {
    let mut store = TaskStore::new();
    complete_task(&mut store, "one", "A", 1000, 0);
    complete_task(&mut store, "two", "B", 1000, 0);
    assert_eq!(
        groups_of(sum_task_times_at(&store, Filter::All, None, NOW)),
        vec![group("A", 0), group("B", 0)]
    );
}

#[test]
fn sum_counts_what_started_inside_the_window() {
    let mut store = TaskStore::new();
    complete_task(&mut store, "old", "A", NOW - 2 * DAY, 100);
    complete_task(&mut store, "edge", "A", NOW - DAY, 1000);
    complete_task(&mut store, "new", "A", NOW - DAY + 1, 10);
    complete_task(&mut store, "other", "B", NOW - 3 * DAY, 7);
    assert_eq!(
        groups_of(sum_task_times_at(&store, Filter::Day, None, NOW)),
        vec![group("A", 10)]
    );
    assert_eq!(
        groups_of(sum_task_times_at(&store, Filter::Week, None, NOW)),
        vec![group("A", 1110), group("B", 7)]
    );
    assert_eq!(
        groups_of(sum_task_times_at(&store, Filter::Week, Some(&name("B")), NOW)),
        vec![group("B", 7)]
    );
    assert_eq!(
        groups_of(sum_task_times_at(&store, Filter::Day, Some(&name("B")), NOW)),
        Vec::new()
    );
}

#[test]
fn sum_fails_when_a_total_does_not_fit() {
    let mut store = TaskStore::new();
    complete_task(&mut store, "one", "A", 1, i64::MAX - 1);
    complete_task(&mut store, "two", "B", 1, 5);
    assert_eq!(
        groups_of(sum_task_times_at(&store, Filter::All, None, NOW)),
        vec![group("A", i64::MAX - 1), group("B", 5)]
    );
    complete_task(&mut store, "three", "A", 1, 1);
    assert_eq!(
        groups_of(sum_task_times_at(&store, Filter::All, None, NOW)),
        vec![group("A", i64::MAX), group("B", 5)]
    );
    complete_task(&mut store, "four", "A", 1, 1);
    assert_eq!(
        sum_task_times_at(&store, Filter::All, None, NOW),
        Err(MetronomeError::StoreFailure)
    );
    assert_eq!(
        groups_of(sum_task_times_at(&store, Filter::All, Some(&name("B")), NOW)),
        vec![group("B", 5)]
    );
}
