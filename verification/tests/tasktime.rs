use metronome::text::{eq_ignore_ascii_case, push_decimal, same_text, text_less};
use metronome::TaskTime;

fn parts(time: &TaskTime) -> (i64, i64, i64, i64) {
    (time.hours, time.minutes, time.seconds, time.raw)
}

#[test]
fn task_time_of_an_hour_a_minute_and_a_second() {
    assert_eq!(parts(&TaskTime::from(3661)), (1, 1, 1, 3661));
}

#[test]
fn task_time_below_a_minute() {
    assert_eq!(parts(&TaskTime::from(59)), (0, 0, 59, 59));
}

#[test]
fn task_time_at_the_unit_borders() {
    assert_eq!(parts(&TaskTime::from(0)), (0, 0, 0, 0));
    assert_eq!(parts(&TaskTime::from(60)), (0, 1, 0, 60));
    assert_eq!(parts(&TaskTime::from(3599)), (0, 59, 59, 3599));
    assert_eq!(parts(&TaskTime::from(3600)), (1, 0, 0, 3600));
    assert_eq!(parts(&TaskTime::from(86_399)), (23, 59, 59, 86_399));
    assert_eq!(parts(&TaskTime::from(90_061)), (25, 1, 1, 90_061));
}

#[test]
fn task_time_of_the_largest_count() {
    assert_eq!(
        parts(&TaskTime::from(i64::MAX)),
        (2_562_047_788_015_215, 30, 7, i64::MAX)
    );
}

#[test]
fn task_time_of_a_negative_count_rounds_toward_zero() {
    assert_eq!(parts(&TaskTime::from(-1)), (0, 0, -1, -1));
    assert_eq!(parts(&TaskTime::from(-3661)), (-1, -1, -1, -3661));
    assert_eq!(
        parts(&TaskTime::from(i64::MIN)),
        (-2_562_047_788_015_215, -30, -8, i64::MIN)
    );
}

#[test]
fn task_time_parts_add_up_to_the_count() {
    for total in [0i64, 1, 59, 60, 61, 3599, 3600, 3661, 86_400, 1_000_000_007, -5, -4000] {
        let time = TaskTime::from(total);
        assert_eq!(time.hours * 3600 + time.minutes * 60 + time.seconds, total);
        assert_eq!(time.raw, total);
        assert!(time.minutes.abs() < 60);
        assert!(time.seconds.abs() < 60);
    }
}

#[test]
fn task_time_equality_is_by_parts() {
    assert_eq!(TaskTime::from(3661), TaskTime::from(3661));
    assert_ne!(TaskTime::from(3661), TaskTime::from(3662));
    assert_eq!(
        TaskTime::from(125),
        TaskTime {
            hours: 0,
            minutes: 2,
            seconds: 5,
            raw: 125
        }
    );
}

#[test]
fn task_time_format_shows_hours_minutes_seconds() {
    assert_eq!(TaskTime::from(3661).format(), "1h 1m 1s");
    assert_eq!(TaskTime::from(59).format(), "0h 0m 59s");
    assert_eq!(TaskTime::from(0).format(), "0h 0m 0s");
    assert_eq!(TaskTime::from(4565).format(), "1h 16m 5s");
    assert_eq!(TaskTime::from(360_000).format(), "100h 0m 0s");
}

#[test]
fn task_time_format_agrees_with_std_formatting() {
    for total in [0i64, 9, 10, 99, 100, 3661, 86_399, i64::MAX, -1, -3661, i64::MIN] {
        let time = TaskTime::from(total);
        assert_eq!(
            time.format(),
            format!("{}h {}m {}s", time.hours, time.minutes, time.seconds)
        );
    }
}

fn decimal_of(n: i64) -> String {
    let mut out = String::new();
    push_decimal(&mut out, n);
    out
}

#[test]
fn push_decimal_writes_the_digits() {
    assert_eq!(decimal_of(0), "0");
    assert_eq!(decimal_of(7), "7");
    assert_eq!(decimal_of(10), "10");
    assert_eq!(decimal_of(1_234_567_890), "1234567890");
    assert_eq!(decimal_of(i64::MAX), "9223372036854775807");
}

#[test]
fn push_decimal_writes_a_sign_for_negative_numbers() {
    assert_eq!(decimal_of(-1), "-1");
    assert_eq!(decimal_of(-10), "-10");
    assert_eq!(decimal_of(-9_000), "-9000");
    assert_eq!(decimal_of(i64::MIN), "-9223372036854775808");
}

#[test]
fn push_decimal_appends_to_what_is_there() {
    let mut out = String::from("id ");
    push_decimal(&mut out, 42);
    push_decimal(&mut out, -3);
    assert_eq!(out, "id 42-3");
}

#[test]
fn eq_ignore_ascii_case_folds_ascii_letters_only() {
    assert!(eq_ignore_ascii_case("Day", "dAY"));
    assert!(eq_ignore_ascii_case("", ""));
    assert!(eq_ignore_ascii_case("a1-Z", "A1-z"));
    assert!(!eq_ignore_ascii_case("day", "days"));
    assert!(!eq_ignore_ascii_case("day", "dax"));
    assert!(!eq_ignore_ascii_case("\u{e9}", "\u{c9}"));
    assert!(!eq_ignore_ascii_case("@", "`"));
    assert!(!eq_ignore_ascii_case("[", "{"));
}

#[test]
fn same_text_compares_character_by_character() {
    assert!(same_text("", ""));
    assert!(same_text("Active", "Active"));
    assert!(!same_text("Active", "active"));
    assert!(!same_text("Active", "Activ"));
    assert!(!same_text("a", "b"));
    assert!(same_text("na\u{ef}ve", "na\u{ef}ve"));
}

#[test]
fn text_less_is_the_lexicographic_order() {
    assert!(text_less("", "a"));
    assert!(!text_less("a", ""));
    assert!(!text_less("", ""));
    assert!(text_less("a", "b"));
    assert!(!text_less("b", "a"));
    assert!(text_less("a", "aa"));
    assert!(!text_less("aa", "a"));
    assert!(!text_less("same", "same"));
    assert!(text_less("Category A", "Category B"));
    assert!(text_less("Z", "a"));
    assert!(text_less("z", "\u{e9}"));
}

#[test]
fn text_less_agrees_with_the_order_of_str() {
    let samples = ["", "a", "A", "aa", "ab", "b", "Misc", "misc", "\u{e9}", "z", "\u{1f600}", "~"];
    for a in samples {
        for b in samples {
            assert_eq!(text_less(a, b), a < b, "{:?} < {:?}", a, b);
        }
    }
}
