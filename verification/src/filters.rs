//! Relative time windows: the selectors a caller may write, the window each
//! one names, and the cutoff instant a window has at a given time.

use crate::clock::{days_in_seconds, weeks_in_seconds};
use crate::text::{ascii_fold, eq_ignore_ascii_case, text_of};
use vstd::prelude::*;
use vstd::std_specs::convert::FromSpecImpl;
use vstd::string::StringExecFns;

verus! {

/// A time window that reaches back from the present.
#[derive(Debug, Clone, Copy, PartialEq, Eq, Structural)]
pub enum Filter {
    /// The last day.
    Day,
    /// The last 7 days.
    Week,
    /// The last 30 days.
    Month,
    /// The last 13 weeks.
    Quarter,
    /// The last 26 weeks.
    SemiAnnual,
    /// The last 365 days.
    Year,
    /// No lower bound.
    All,
}

impl Filter {
    /// The filter that a selector names. Selectors are matched without
    /// regard to the case of ASCII letters; `None` means that the text is
    /// not a selector.
    pub open spec fn parse_spec(selector: Seq<char>) -> Option<Filter> {
        let word = ascii_fold(selector);
        if word == "d"@ || word == "day"@ {
            Some(Filter::Day)
        } else if word == "w"@ || word == "week"@ {
            Some(Filter::Week)
        } else if word == "m"@ || word == "month"@ {
            Some(Filter::Month)
        } else if word == "q"@ || word == "quarter"@ {
            Some(Filter::Quarter)
        } else if word == "s"@ || word == "semi"@ || word == "semiannual"@ {
            Some(Filter::SemiAnnual)
        } else if word == "y"@ || word == "year"@ {
            Some(Filter::Year)
        } else if word == "all"@ {
            Some(Filter::All)
        } else {
            None
        }
    }

    /// The filter chosen by an optional selector: the one it names, and
    /// [`Filter::All`] when there is no selector or it is not recognized.
    pub open spec fn select_spec(selector: Option<Seq<char>>) -> Filter {
        match selector {
            Some(text) => match Filter::parse_spec(text) {
                Some(filter) => filter,
                None => Filter::All,
            },
            None => Filter::All,
        }
    }

    /// How far the window reaches back, in seconds; 0 for [`Filter::All`].
    pub open spec fn lookback_seconds(self) -> int {
        match self {
            Filter::Day => 86_400int,
            Filter::Week => 7int * 86_400,
            Filter::Month => 30int * 86_400,
            Filter::Quarter => 91int * 86_400,
            Filter::SemiAnnual => 182int * 86_400,
            Filter::Year => 365int * 86_400,
            Filter::All => 0int,
        }
    }

    /// The cutoff of the window at time `now`: records that started at or
    /// before it are outside the window. [`Filter::All`] has the cutoff 0.
    pub open spec fn cutoff(self, now: int) -> int {
        if self == Filter::All {
            0
        } else {
            now - self.lookback_seconds()
        }
    }

    /// The sentence that tells a user which window is in force.
    pub open spec fn label_spec(self) -> Seq<char> {
        match self {
            Filter::Day => "Filtering events to those started in the last day"@,
            Filter::Week => "Filtering events to those started in the last week"@,
            Filter::Month => "Filtering events to those started in the last 30 days"@,
            Filter::Quarter => "Filtering events to those started in the last quarter (13 weeks)"@,
            Filter::SemiAnnual => "Filtering events to those started in the last 6 months (26 weeks)"@,
            Filter::Year => "Filtering events to those started in the last year (365 days)"@,
            Filter::All => "No filter will be applied"@,
        }
    }

    /// The notice that goes with an optional selector: none without a
    /// selector, else the label of the filter in force between `** ` and
    /// ` **`. An unrecognized selector therefore announces that no filter
    /// is applied.
    pub open spec fn notice_spec(selector: Option<Seq<char>>) -> Option<Seq<char>> {
        match selector {
            Some(_) => Some("** "@ + Filter::select_spec(selector).label_spec() + " **"@),
            None => None,
        }
    }

    /// All filters, from the narrowest window to the widest.
    pub fn all() -> (filters: Vec<Filter>)
        ensures
            filters@ == seq![
                Filter::Day,
                Filter::Week,
                Filter::Month,
                Filter::Quarter,
                Filter::SemiAnnual,
                Filter::Year,
                Filter::All,
            ],
    {
        let mut filters: Vec<Filter> = Vec::new();
        filters.push(Filter::Day);
        filters.push(Filter::Week);
        filters.push(Filter::Month);
        filters.push(Filter::Quarter);
        filters.push(Filter::SemiAnnual);
        filters.push(Filter::Year);
        filters.push(Filter::All);
        filters
    }

    /// Reads a selector.
    pub fn parse(selector: &str) -> (filter: Option<Filter>)
        ensures
            filter == Filter::parse_spec(selector@),
    {
        proof {
            lemma_selectors_are_lower_case();
        }
        if eq_ignore_ascii_case(selector, "d") || eq_ignore_ascii_case(selector, "day") {
            Some(Filter::Day)
        } else if eq_ignore_ascii_case(selector, "w") || eq_ignore_ascii_case(selector, "week") {
            Some(Filter::Week)
        } else if eq_ignore_ascii_case(selector, "m") || eq_ignore_ascii_case(selector, "month") {
            Some(Filter::Month)
        } else if eq_ignore_ascii_case(selector, "q") || eq_ignore_ascii_case(
            selector,
            "quarter",
        ) {
            Some(Filter::Quarter)
        } else if eq_ignore_ascii_case(selector, "s") || eq_ignore_ascii_case(selector, "semi")
            || eq_ignore_ascii_case(selector, "semiannual") {
            Some(Filter::SemiAnnual)
        } else if eq_ignore_ascii_case(selector, "y") || eq_ignore_ascii_case(selector, "year") {
            Some(Filter::Year)
        } else if eq_ignore_ascii_case(selector, "all") {
            Some(Filter::All)
        } else {
            None
        }
    }

    /// The sentence that tells a user which window is in force.
    pub fn label(&self) -> (text: String)
        ensures
            text@ == self.label_spec(),
    {
        match self {
            Filter::Day => String::from_str("Filtering events to those started in the last day"),
            Filter::Week => String::from_str("Filtering events to those started in the last week"),
            Filter::Month => String::from_str(
                "Filtering events to those started in the last 30 days",
            ),
            Filter::Quarter => String::from_str(
                "Filtering events to those started in the last quarter (13 weeks)",
            ),
            Filter::SemiAnnual => String::from_str(
                "Filtering events to those started in the last 6 months (26 weeks)",
            ),
            Filter::Year => String::from_str(
                "Filtering events to those started in the last year (365 days)",
            ),
            Filter::All => String::from_str("No filter will be applied"),
        }
    }

    /// The notice to show for an optional selector, if any.
    pub fn notice(selector: Option<&String>) -> (text: Option<String>)
        ensures
            match text {
                Some(notice) => Filter::notice_spec(text_of(selector)) == Some(notice@),
                None => Filter::notice_spec(text_of(selector)) is None,
            },
    {
        match selector {
            Some(_) => {
                let filter = Filter::from(selector);
                let mut text = String::from_str("** ");
                text.append(filter.label().as_str());
                text.append(" **");
                Some(text)
            },
            None => None,
        }
    }

    /// How far the window reaches back, in seconds; 0 for [`Filter::All`].
    pub fn lookback(self) -> (secs: i64)
        ensures
            secs == self.lookback_seconds(),
    {
        match self {
            Filter::Day => days_in_seconds(1),
            Filter::Week => weeks_in_seconds(1),
            Filter::Month => days_in_seconds(30),
            Filter::Quarter => weeks_in_seconds(13),
            Filter::SemiAnnual => weeks_in_seconds(26),
            Filter::Year => days_in_seconds(365),
            Filter::All => 0,
        }
    }

    /// The cutoff of the window at time `now`.
    pub fn resolve(self, now: i64) -> (cutoff: i64)
        requires
            self.cutoff(now as int) >= i64::MIN,
        ensures
            cutoff == self.cutoff(now as int),
    {
        match self {
            Filter::All => 0,
            _ => now - self.lookback(),
        }
    }

    /// Whether a record that started at `start_time` lies inside the window
    /// at time `now`, that is, after the cutoff. Unlike [`Filter::resolve`]
    /// this works for every `now`.
    pub fn admits(self, now: i64, start_time: i64) -> (inside: bool)
        ensures
            inside == (start_time > self.cutoff(now as int)),
    {
        match self {
            Filter::All => start_time > 0,
            _ => match now.checked_sub(self.lookback()) {
                Some(cutoff) => start_time > cutoff,
                None => true,
            },
        }
    }
}

/// Folding the case of a selector's spelling changes nothing: the spellings
/// are written in lower case.
pub proof fn lemma_selectors_are_lower_case()
    ensures
        ascii_fold("d"@) == "d"@,
        ascii_fold("day"@) == "day"@,
        ascii_fold("w"@) == "w"@,
        ascii_fold("week"@) == "week"@,
        ascii_fold("m"@) == "m"@,
        ascii_fold("month"@) == "month"@,
        ascii_fold("q"@) == "q"@,
        ascii_fold("quarter"@) == "quarter"@,
        ascii_fold("s"@) == "s"@,
        ascii_fold("semi"@) == "semi"@,
        ascii_fold("semiannual"@) == "semiannual"@,
        ascii_fold("y"@) == "y"@,
        ascii_fold("year"@) == "year"@,
        ascii_fold("all"@) == "all"@,
{
    reveal_strlit("d");
    reveal_strlit("day");
    reveal_strlit("w");
    reveal_strlit("week");
    reveal_strlit("m");
    reveal_strlit("month");
    reveal_strlit("q");
    reveal_strlit("quarter");
    reveal_strlit("s");
    reveal_strlit("semi");
    reveal_strlit("semiannual");
    reveal_strlit("y");
    reveal_strlit("year");
    reveal_strlit("all");
}

/// Each spelling of a selector is read as the filter that it stands for.
pub proof fn lemma_spellings()
    ensures
        Filter::parse_spec("d"@) == Some(Filter::Day),
        Filter::parse_spec("day"@) == Some(Filter::Day),
        Filter::parse_spec("w"@) == Some(Filter::Week),
        Filter::parse_spec("week"@) == Some(Filter::Week),
        Filter::parse_spec("m"@) == Some(Filter::Month),
        Filter::parse_spec("month"@) == Some(Filter::Month),
        Filter::parse_spec("q"@) == Some(Filter::Quarter),
        Filter::parse_spec("quarter"@) == Some(Filter::Quarter),
        Filter::parse_spec("s"@) == Some(Filter::SemiAnnual),
        Filter::parse_spec("semi"@) == Some(Filter::SemiAnnual),
        Filter::parse_spec("semiannual"@) == Some(Filter::SemiAnnual),
        Filter::parse_spec("y"@) == Some(Filter::Year),
        Filter::parse_spec("year"@) == Some(Filter::Year),
        Filter::parse_spec("all"@) == Some(Filter::All),
{
    lemma_selectors_are_lower_case();
    reveal_strlit("d");
    reveal_strlit("day");
    reveal_strlit("w");
    reveal_strlit("week");
    reveal_strlit("m");
    reveal_strlit("month");
    reveal_strlit("q");
    reveal_strlit("quarter");
    reveal_strlit("s");
    reveal_strlit("semi");
    reveal_strlit("semiannual");
    reveal_strlit("y");
    reveal_strlit("year");
    reveal_strlit("all");
    assert("w"@.len() == 1 && "w"@[0] == 'w');
    assert("m"@.len() == 1 && "m"@[0] == 'm');
    assert("q"@.len() == 1 && "q"@[0] == 'q');
    assert("s"@.len() == 1 && "s"@[0] == 's');
    assert("semi"@.len() == 4 && "semi"@[0] == 's');
    assert("y"@.len() == 1 && "y"@[0] == 'y');
    assert("year"@.len() == 4 && "year"@[0] == 'y');
    assert("all"@.len() == 3 && "all"@[0] == 'a');
}

impl<'a> From<Option<&'a String>> for Filter {
    /// The filter chosen by an optional selector; see
    /// [`Filter::select_spec`].
    fn from(value: Option<&'a String>) -> (filter: Filter)
        ensures
            filter == Filter::select_spec(text_of(value)),
    {
        match value {
            Some(text) => match Filter::parse(text.as_str()) {
                Some(filter) => filter,
                None => Filter::All,
            },
            None => Filter::All,
        }
    }
}

impl<'a> FromSpecImpl<Option<&'a String>> for Filter {
    open spec fn obeys_from_spec() -> bool {
        true
    }

    open spec fn from_spec(value: Option<&'a String>) -> Filter {
        Filter::select_spec(text_of(value))
    }
}

} // verus!
