//! The tables in which listings and totals are shown: lines of text with
//! centered cells of fixed width.

use crate::clock::{calendar_text, timestamp_text};
use crate::record::{views, TaskRecord, TaskView};
use crate::results::CategoryTotal;
use crate::tasktime::TaskTime;
use crate::text::{decimal, push_count, push_decimal};
use crate::totals::{total_views, TotalView};
use vstd::prelude::*;
use vstd::string::{StrSliceExecFns, StringExecFns};

verus! {

/// `n` times the character `c`.
pub open spec fn repeated(c: char, n: nat) -> Seq<char> {
    Seq::new(n, |i: int| c)
}

/// `text` in the middle of a field of `width` characters: the blanks that
/// are missing are split between the two sides, and the odd one goes to the
/// right. A text that fills the field or is longer stays as it is.
pub open spec fn centered(text: Seq<char>, width: nat) -> Seq<char> {
    if text.len() >= width {
        text
    } else {
        let missing = (width - text.len()) as nat;
        repeated(' ', missing / 2) + text + repeated(' ', (missing - missing / 2) as nat)
    }
}

/// One cell of a table line: a blank, the centered text, a blank and the
/// bar that closes the cell.
pub open spec fn cell(text: Seq<char>, width: nat) -> Seq<char> {
    seq![' '] + centered(text, width) + seq![' ', '|']
}

/// A line of the table of tasks.
pub open spec fn list_line(
    id: Seq<char>,
    task: Seq<char>,
    start_time: Seq<char>,
    end_time: Seq<char>,
    total_time: Seq<char>,
    category: Seq<char>,
) -> Seq<char> {
    seq!['|'] + cell(id, 4) + cell(task, 40) + cell(start_time, 30) + cell(end_time, 30) + cell(
        total_time,
        15,
    ) + cell(category, 20)
}

/// A line of the table of totals.
pub open spec fn total_line(category: Seq<char>, total_time: Seq<char>) -> Seq<char> {
    seq!['|'] + cell(category, 20) + cell(total_time, 15)
}

/// What stands in a cell for a time that a record does not have.
pub open spec fn absent() -> Seq<char> {
    "NULL"@
}

/// How a total time in seconds is shown.
pub open spec fn duration_text(seconds: int) -> Seq<char> {
    TaskTime::of_seconds(seconds as i64).text()
}

/// The line of a record in the table of tasks, for given texts of its start
/// and end time.
pub open spec fn list_row_text(row: TaskView, start_time: Seq<char>, end_time: Option<Seq<char>>) -> Seq<
    char,
> {
    list_line(
        decimal(row.id),
        row.name,
        start_time,
        match end_time {
            Some(text) => text,
            None => absent(),
        },
        match row.total_time {
            Some(seconds) => duration_text(seconds),
            None => absent(),
        },
        row.category,
    )
}

/// The line of a record in the table of tasks, with its times written as
/// calendar text; `None` where a time of the record cannot be written so.
pub open spec fn list_row_spec(row: TaskView) -> Option<Seq<char>> {
    match calendar_text(row.start_time) {
        Some(start_time) => match row.end_time {
            Some(end) => match calendar_text(end) {
                Some(end_time) => Some(list_row_text(row, start_time, Some(end_time))),
                None => None,
            },
            None => Some(list_row_text(row, start_time, None)),
        },
        None => None,
    }
}

/// The line of a group in the table of totals.
pub open spec fn total_row_text(group: TotalView) -> Seq<char> {
    total_line(group.category, duration_text(group.total_seconds))
}

fn push_repeated(out: &mut String, unit: &str, n: usize)
    requires
        unit@.len() == 1,
    ensures
        final(out)@ == old(out)@ + repeated(unit@[0], n as nat),
{
    let mut i: usize = 0;
    while i < n
        invariant
            i <= n,
            unit@.len() == 1,
            out@ == old(out)@ + repeated(unit@[0], i as nat),
        decreases n - i,
    {
        out.append(unit);
        i += 1;
    }
}

fn push_cell(out: &mut String, text: &str, width: usize)
    ensures
        final(out)@ == old(out)@ + cell(text@, width as nat),
{
    proof {
        reveal_strlit(" ");
        reveal_strlit(" |");
    }
    let n: usize = text.unicode_len();
    out.append(" ");
    if n >= width {
        out.append(text);
    } else {
        let missing: usize = width - n;
        let left: usize = missing / 2;
        push_repeated(out, " ", left);
        out.append(text);
        push_repeated(out, " ", missing - left);
    }
    out.append(" |");
}

/// Writes a line of the table of tasks.
pub fn format_list_line(
    id: &str,
    task: &str,
    start_time: &str,
    end_time: &str,
    total_time: &str,
    category: &str,
) -> (line: String)
    ensures
        line@ == list_line(id@, task@, start_time@, end_time@, total_time@, category@),
{
    proof {
        reveal_strlit("|");
    }
    let mut line = String::from_str("|");
    push_cell(&mut line, id, 4);
    push_cell(&mut line, task, 40);
    push_cell(&mut line, start_time, 30);
    push_cell(&mut line, end_time, 30);
    push_cell(&mut line, total_time, 15);
    push_cell(&mut line, category, 20);
    line
}

/// Writes a line of the table of totals.
pub fn format_total_line(category: &str, total_time: &str) -> (line: String)
    ensures
        line@ == total_line(category@, total_time@),
{
    proof {
        reveal_strlit("|");
    }
    let mut line = String::from_str("|");
    push_cell(&mut line, category, 20);
    push_cell(&mut line, total_time, 15);
    line
}

/// The heading of the table of tasks.
pub fn list_heading() -> (line: String)
    ensures
        line@ == list_heading_text(),
{
    format_list_line("ID", "TASK", "START TIME", "END TIME", "TOTAL TIME", "CATEGORY")
}

/// The rule under the heading of the table of tasks.
pub fn list_rule() -> (line: String)
    ensures
        line@ == repeated('=', 158),
{
    proof {
        reveal_strlit("=");
    }
    let mut line = String::new();
    push_repeated(&mut line, "=", 158);
    line
}

/// The heading of the table of totals.
pub fn total_heading() -> (line: String)
    ensures
        line@ == total_heading_text(),
{
    format_total_line("CATEGORY", "TOTAL TIME")
}

/// The rule under the heading of the table of totals.
pub fn total_rule() -> (line: String)
    ensures
        line@ == repeated('=', 42),
{
    proof {
        reveal_strlit("=");
    }
    let mut line = String::new();
    push_repeated(&mut line, "=", 42);
    line
}

fn id_text(id: i64) -> (text: String)
    ensures
        text@ == decimal(id as int),
{
    let mut text = String::new();
    push_decimal(&mut text, id);
    text
}

fn total_time_text(total_time: Option<i64>) -> (text: String)
    ensures
        text@ == match total_time {
            Some(seconds) => duration_text(seconds as int),
            None => absent(),
        },
{
    match total_time {
        Some(seconds) => TaskTime::from(seconds).format(),
        None => String::from_str("NULL"),
    }
}

/// Writes the line of a record in the table of tasks, for given texts of
/// its start and end time.
pub fn format_list_row(row: &TaskRecord, start_time: &str, end_time: Option<&str>) -> (line: String)
    ensures
        line@ == list_row_text(
            row@,
            start_time@,
            match end_time {
                Some(text) => Some(text@),
                None => None,
            },
        ),
{
    let end_time: &str = match end_time {
        Some(text) => text,
        None => "NULL",
    };
    format_list_line(
        id_text(row.id).as_str(),
        row.name.as_str(),
        start_time,
        end_time,
        total_time_text(row.total_time).as_str(),
        row.category.as_str(),
    )
}

/// Writes the line of a record in the table of tasks, with its times as
/// calendar text. The answer is `None` where a time of the record lies
/// outside the range of dates that can be written.
pub fn render_list_row(row: &TaskRecord) -> (line: Option<String>)
    ensures
        match line {
            Some(text) => list_row_spec(row@) == Some(text@),
            None => list_row_spec(row@) is None,
        },
{
    match timestamp_text(row.start_time) {
        Some(start_time) => match row.end_time {
            Some(end) => match timestamp_text(end) {
                Some(end_time) => Some(
                    format_list_row(row, start_time.as_str(), Some(end_time.as_str())),
                ),
                None => None,
            },
            None => Some(format_list_row(row, start_time.as_str(), None)),
        },
        None => None,
    }
}

/// Writes the line of a group in the table of totals.
pub fn format_total_row(group: &CategoryTotal) -> (line: String)
    ensures
        line@ == total_row_text(group@),
{
    format_total_line(
        group.category.as_str(),
        TaskTime::from(group.total_seconds).format().as_str(),
    )
}

/// The texts of a sequence of strings, in the same order.
pub open spec fn texts(lines: Seq<String>) -> Seq<Seq<char>> {
    Seq::new(lines.len(), |i: int| lines[i]@)
}

/// The heading of the table of tasks.
pub open spec fn list_heading_text() -> Seq<char> {
    list_line("ID"@, "TASK"@, "START TIME"@, "END TIME"@, "TOTAL TIME"@, "CATEGORY"@)
}

/// The heading of the table of totals.
pub open spec fn total_heading_text() -> Seq<char> {
    total_line("CATEGORY"@, "TOTAL TIME"@)
}

/// The table of tasks: the heading, the rule, and one line for each record,
/// in the order given; `None` where a time of some record cannot be
/// written as calendar text.
pub open spec fn list_table(rows: Seq<TaskView>) -> Option<Seq<Seq<char>>> {
    if forall|i: int| 0 <= i < rows.len() ==> list_row_spec(#[trigger] rows[i]) is Some {
        Some(
            seq![list_heading_text(), repeated('=', 158)] + Seq::new(
                rows.len(),
                |i: int| list_row_spec(rows[i])->0,
            ),
        )
    } else {
        None
    }
}

/// The table of totals: the heading, the rule, and one line for each group,
/// in the order given.
pub open spec fn total_table(groups: Seq<TotalView>) -> Seq<Seq<char>> {
    seq![total_heading_text(), repeated('=', 42)] + Seq::new(
        groups.len(),
        |k: int| total_row_text(groups[k]),
    )
}

/// Writes the table of tasks for the records of a listing. The answer is
/// `None` where a time of some record lies outside the range of dates that
/// can be written.
pub fn format_list_rows(rows: &Vec<TaskRecord>) -> (lines: Option<Vec<String>>)
    ensures
        match lines {
            Some(table) => list_table(views(rows@)) == Some(texts(table@)),
            None => list_table(views(rows@)) is None,
        },
{
    let mut table: Vec<String> = Vec::new();
    table.push(list_heading());
    table.push(list_rule());
    let ghost head = seq![list_heading_text(), repeated('=', 158)];
    let n: usize = rows.len();
    let mut i: usize = 0;
    while i < n
        invariant
            i <= n,
            n == rows@.len(),
            head == seq![list_heading_text(), repeated('=', 158)],
            forall|j: int| 0 <= j < i ==> list_row_spec(#[trigger] views(rows@)[j]) is Some,
            texts(table@) == head + Seq::new(i as nat, |j: int| list_row_spec(views(rows@)[j])->0),
        decreases n - i,
    {
        assert(rows@[i as int]@ == views(rows@)[i as int]);
        match render_list_row(&rows[i]) {
            Some(line) => {
                let ghost before = texts(table@);
                table.push(line);
                assert(texts(table@) =~= before.push(line@));
            },
            None => {
                return None;
            },
        }
        i += 1;
    }
    Some(table)
}

/// Writes the table of totals for the groups of a summary.
pub fn format_total_time_rows(groups: &Vec<CategoryTotal>) -> (table: Vec<String>)
    ensures
        texts(table@) == total_table(total_views(groups@)),
{
    let mut table: Vec<String> = Vec::new();
    table.push(total_heading());
    table.push(total_rule());
    let ghost head = seq![total_heading_text(), repeated('=', 42)];
    let n: usize = groups.len();
    let mut k: usize = 0;
    while k < n
        invariant
            k <= n,
            n == groups@.len(),
            head == seq![total_heading_text(), repeated('=', 42)],
            texts(table@) == head + Seq::new(
                k as nat,
                |j: int| total_row_text(total_views(groups@)[j]),
            ),
        decreases n - k,
    {
        let line = format_total_row(&groups[k]);
        let ghost before = texts(table@);
        table.push(line);
        assert(texts(table@) =~= before.push(line@));
        k += 1;
    }
    table
}

/// The confirmation of a start: `Task "<name>" started at <time>!`.
pub open spec fn started_text(name: Seq<char>, time: Seq<char>) -> Seq<char> {
    "Task \""@ + name + "\" started at "@ + time + "!"@
}

/// The announcement of an end: `Ending task "<name>" at <time>`.
pub open spec fn ending_text(name: Seq<char>, time: Seq<char>) -> Seq<char> {
    "Ending task \""@ + name + "\" at "@ + time
}

/// The confirmation of an end: `Task "<name>" ended after <h>h <m>m <s>s`.
pub open spec fn ended_text(name: Seq<char>, time: TaskTime) -> Seq<char> {
    "Task \""@ + name + "\" ended after "@ + time.text()
}

/// The confirmation of an end of all active tasks:
/// `Ended <count> active tasks at <time>.`
pub open spec fn ended_all_text(count: nat, time: Seq<char>) -> Seq<char> {
    "Ended "@ + decimal(count as int) + " active tasks at "@ + time + "."@
}

/// Writes the confirmation of a start, with the start time as text.
pub fn started_message(name: &str, time: &str) -> (message: String)
    ensures
        message@ == started_text(name@, time@),
{
    let mut message = String::from_str("Task \"");
    message.append(name);
    message.append("\" started at ");
    message.append(time);
    message.append("!");
    message
}

/// Writes the announcement of an end, with the end time as text.
pub fn ending_message(name: &str, time: &str) -> (message: String)
    ensures
        message@ == ending_text(name@, time@),
{
    let mut message = String::from_str("Ending task \"");
    message.append(name);
    message.append("\" at ");
    message.append(time);
    message
}

/// Writes the confirmation of an end, with the time that the task took.
pub fn ended_message(name: &str, time: &TaskTime) -> (message: String)
    ensures
        message@ == ended_text(name@, *time),
{
    let mut message = String::from_str("Task \"");
    message.append(name);
    message.append("\" ended after ");
    message.append(time.format().as_str());
    message
}

/// Writes the confirmation of an end of all active tasks, with the end time
/// as text.
pub fn ended_all_message(count: usize, time: &str) -> (message: String)
    ensures
        message@ == ended_all_text(count as nat, time@),
{
    let mut message = String::from_str("Ended ");
    push_count(&mut message, count);
    message.append(" active tasks at ");
    message.append(time);
    message.append(".");
    message
}

} // verus!
