use metronome::report::{
    ended_all_message, ended_message, ending_message, format_list_line, format_list_row,
    format_list_rows, format_total_line, format_total_row, format_total_time_rows, list_heading,
    list_rule, render_list_row, started_message, total_heading, total_rule,
};
use metronome::text::push_count;
use metronome::{CategoryTotal, Status, TaskRecord, TaskTime};

fn record(id: i64, name: &str, category: &str, start: i64, end: Option<i64>) -> TaskRecord {
    TaskRecord {
        id,
        name: name.to_string(),
        category: category.to_string(),
        start_time: start,
        end_time: end,
        total_time: end.map(|end| end - start),
        status: if end.is_some() { Status::Complete } else { Status::Active },
    }
}

#[test]
fn report_list_heading() {
    assert_eq!(
        list_heading(),
        format!(
            "| {:^4} | {:^40} | {:^30} | {:^30} | {:^15} | {:^20} |",
            "ID", "TASK", "START TIME", "END TIME", "TOTAL TIME", "CATEGORY"
        )
    );
    assert_eq!(list_heading().chars().count(), 158);
}

#[test]
fn report_list_rule() {
    assert_eq!(list_rule(), "=".repeat(158));
}

#[test]
fn report_total_heading() {
    assert_eq!(
        total_heading(),
        format!("| {:^20} | {:^15} |", "CATEGORY", "TOTAL TIME")
    );
    assert_eq!(
        total_heading(),
        "|       CATEGORY       |   TOTAL TIME    |"
    );
}

#[test]
fn report_total_rule() {
    assert_eq!(total_rule(), "=".repeat(42));
}

#[test]
fn report_cells_are_centered() {
    assert_eq!(format_total_line("", ""), format!("| {:^20} | {:^15} |", "", ""));
    assert_eq!(format_total_line("a", "b"), format!("| {:^20} | {:^15} |", "a", "b"));
    assert_eq!(format_total_line("ab", "cd"), format!("| {:^20} | {:^15} |", "ab", "cd"));
    assert_eq!(
        format_total_line("a", "b"),
        "|          a           |        b        |"
    );
}

#[test]
fn report_cells_that_are_full_or_too_long_are_kept() {
    let full = "x".repeat(20);
    let long = "y".repeat(33);
    assert_eq!(
        format_total_line(&full, &long),
        format!("| {:^20} | {:^15} |", full, long)
    );
    assert_eq!(format_total_line(&full, &long), format!("| {} | {} |", full, long));
    let almost = "z".repeat(19);
    assert_eq!(
        format_total_line(&almost, "0123456789abcd"),
        format!("| {}  | 0123456789abcd  |", almost)
    );
}

#[test]
fn report_cells_count_characters_not_bytes() {
    assert_eq!(
        format_total_line("caf\u{e9}", "\u{1f600}"),
        format!("| {:^20} | {:^15} |", "caf\u{e9}", "\u{1f600}")
    );
}

#[test]
fn report_list_line() {
    assert_eq!(
        format_list_line("7", "write", "then", "now", "1h 0m 0s", "Misc"),
        format!(
            "| {:^4} | {:^40} | {:^30} | {:^30} | {:^15} | {:^20} |",
            7, "write", "then", "now", "1h 0m 0s", "Misc"
        )
    );
}

#[test]
fn report_list_row_of_a_complete_record() {
    let row = record(12, "write report", "work", 1000, Some(4661));
    assert_eq!(
        format_list_row(&row, "start text", Some("end text")),
        format!(
            "| {:^4} | {:^40} | {:^30} | {:^30} | {:^15} | {:^20} |",
            12, "write report", "start text", "end text", "1h 1m 1s", "work"
        )
    );
}

#[test]
fn report_list_row_of_an_active_record() {
    let row = record(3, "read", "Misc", 1000, None);
    assert_eq!(
        format_list_row(&row, "start text", None),
        format!(
            "| {:^4} | {:^40} | {:^30} | {:^30} | {:^15} | {:^20} |",
            3, "read", "start text", "NULL", "NULL", "Misc"
        )
    );
}

#[test]
fn report_list_row_with_wide_id() {
    let row = record(-123_456, "read", "Misc", 1000, None);
    assert_eq!(
        format_list_row(&row, "s", None),
        format!(
            "| {:^4} | {:^40} | {:^30} | {:^30} | {:^15} | {:^20} |",
            -123_456, "read", "s", "NULL", "NULL", "Misc"
        )
    );
}

#[test]
fn report_render_writes_times_as_calendar_text() {
    let row = record(1, "read", "Misc", 1_000_000_000, Some(1_234_567_890));
    assert_eq!(
        render_list_row(&row),
        Some(format!(
            "| {:^4} | {:^40} | {:^30} | {:^30} | {:^15} | {:^20} |",
            1,
            "read",
            "Sun Sep  9 01:46:40 2001",
            "Fri Feb 13 23:31:30 2009",
            "65157h 44m 50s",
            "Misc"
        ))
    );
}

#[test]
fn report_render_of_an_active_record() {
    let row = record(1, "read", "Misc", 0, None);
    assert_eq!(
        render_list_row(&row),
        Some(format!(
            "| {:^4} | {:^40} | {:^30} | {:^30} | {:^15} | {:^20} |",
            1, "read", "Thu Jan  1 00:00:00 1970", "NULL", "NULL", "Misc"
        ))
    );
}

#[test]
fn report_render_gives_up_on_a_time_out_of_range() {
    assert_eq!(render_list_row(&record(1, "read", "Misc", i64::MAX, None)), None);
    assert_eq!(render_list_row(&record(1, "read", "Misc", i64::MIN, None)), None);
    assert_eq!(render_list_row(&record(1, "read", "Misc", 0, Some(i64::MAX))), None);
}

#[test]
fn report_list_rows_is_heading_rule_and_rows() {
    let rows = vec![
        record(1, "read", "Misc", 1_000_000_000, None),
        record(2, "write", "work", 1_000_000_000, Some(1_000_003_661)),
    ];
    let lines = format_list_rows(&rows).unwrap();
    assert_eq!(lines.len(), 4);
    assert_eq!(lines[0], list_heading());
    assert_eq!(lines[1], list_rule());
    assert_eq!(Some(lines[2].clone()), render_list_row(&rows[0]));
    assert_eq!(Some(lines[3].clone()), render_list_row(&rows[1]));
    assert!(lines[3].contains("Sun Sep  9 02:47:41 2001"));
    assert!(lines[3].contains("1h 1m 1s"));
}

#[test]
fn report_list_rows_of_no_rows() {
    assert_eq!(format_list_rows(&Vec::new()), Some(vec![list_heading(), list_rule()]));
}

#[test]
fn report_list_rows_gives_up_on_a_time_out_of_range() {
    let rows = vec![
        record(1, "read", "Misc", 1_000_000_000, None),
        record(2, "write", "work", i64::MAX, None),
    ];
    assert_eq!(format_list_rows(&rows), None);
}

#[test]
fn report_total_row() {
    let group = CategoryTotal { category: "Category A".to_string(), total_seconds: 2100 };
    assert_eq!(
        format_total_row(&group),
        format!("| {:^20} | {:^15} |", "Category A", "0h 35m 0s")
    );
}

#[test]
fn report_total_time_rows_is_heading_rule_and_rows() {
    let groups = vec![
        CategoryTotal { category: "A".to_string(), total_seconds: 2100 },
        CategoryTotal { category: "B".to_string(), total_seconds: 65 },
    ];
    assert_eq!(
        format_total_time_rows(&groups),
        vec![
            total_heading(),
            total_rule(),
            format!("| {:^20} | {:^15} |", "A", "0h 35m 0s"),
            format!("| {:^20} | {:^15} |", "B", "0h 1m 5s"),
        ]
    );
    assert_eq!(
        format_total_time_rows(&Vec::new()),
        vec![total_heading(), total_rule()]
    );
}

#[test]
fn report_started_message() {
    assert_eq!(
        started_message("write", "Sun Sep  9 01:46:40 2001"),
        "Task \"write\" started at Sun Sep  9 01:46:40 2001!"
    );
    assert_eq!(started_message("", ""), "Task \"\" started at !");
}

#[test]
fn report_ending_message() {
    assert_eq!(
        ending_message("write", "Sun Sep  9 01:46:40 2001"),
        "Ending task \"write\" at Sun Sep  9 01:46:40 2001"
    );
}

#[test]
fn report_ended_message() {
    assert_eq!(
        ended_message("write", &TaskTime::from(3661)),
        "Task \"write\" ended after 1h 1m 1s"
    );
}

#[test]
fn report_ended_all_message() {
    assert_eq!(
        ended_all_message(3, "Sun Sep  9 01:46:40 2001"),
        "Ended 3 active tasks at Sun Sep  9 01:46:40 2001."
    );
    assert_eq!(ended_all_message(0, "then"), "Ended 0 active tasks at then.");
    assert_eq!(
        ended_all_message(usize::MAX, "then"),
        format!("Ended {} active tasks at then.", usize::MAX)
    );
}

#[test]
fn push_count_writes_the_digits() {
    let mut out = String::new();
    push_count(&mut out, 0);
    push_count(&mut out, 15);
    push_count(&mut out, usize::MAX);
    assert_eq!(out, format!("015{}", usize::MAX));
}
