//! Elapsed time split into hours, minutes and seconds.

use crate::text::{decimal, push_decimal};
use vstd::prelude::*;
use vstd::std_specs::convert::FromSpecImpl;
use vstd::string::StringExecFns;

verus! {

/// Division that rounds toward zero.
pub open spec fn trunc_div(a: int, b: int) -> int
    recommends
        b > 0,
{
    if a >= 0 {
        a / b
    } else {
        -((-a) / b)
    }
}

/// The remainder that goes with [`trunc_div`]; it has the sign of `a`.
pub open spec fn trunc_rem(a: int, b: int) -> int
    recommends
        b > 0,
{
    a - b * trunc_div(a, b)
}

/// A duration in seconds together with its breakdown into hours, minutes
/// and seconds.
#[derive(Debug, Clone, Copy, PartialEq, Eq, Structural)]
pub struct TaskTime {
    pub hours: i64,
    pub minutes: i64,
    pub seconds: i64,
    /// The duration in seconds that the breakdown was made from.
    pub raw: i64,
}

impl TaskTime {
    /// The breakdown of `total_seconds`: whole hours, then whole minutes of
    /// what is left, then the remaining seconds. A negative duration gives
    /// components that are negative or zero.
    pub open spec fn of_seconds(total_seconds: i64) -> TaskTime {
        TaskTime {
            hours: trunc_div(total_seconds as int, 3600) as i64,
            minutes: trunc_div(trunc_rem(total_seconds as int, 3600), 60) as i64,
            seconds: trunc_rem(total_seconds as int, 60) as i64,
            raw: total_seconds,
        }
    }

    /// The breakdown and the raw count agree, and minutes and seconds stay
    /// below one hour and one minute in magnitude, with the sign of `raw`.
    pub open spec fn well_formed(&self) -> bool {
        &&& self.raw == self.hours * 3600 + self.minutes * 60 + self.seconds
        &&& self.raw >= 0 ==> self.hours >= 0 && 0 <= self.minutes < 60 && 0 <= self.seconds < 60
        &&& self.raw <= 0 ==> self.hours <= 0 && -60 < self.minutes <= 0 && -60 < self.seconds <= 0
    }

    /// The display text, `<h>h <m>m <s>s`.
    pub open spec fn text(&self) -> Seq<char> {
        decimal(self.hours as int) + seq!['h', ' '] + decimal(self.minutes as int) + seq![
            'm',
            ' ',
        ] + decimal(self.seconds as int) + seq!['s']
    }

    /// Renders the breakdown as `<h>h <m>m <s>s`.
    pub fn format(&self) -> (out: String)
        ensures
            out@ == self.text(),
    {
        proof {
            reveal_strlit("h ");
            reveal_strlit("m ");
            reveal_strlit("s");
        }
        let mut out = String::new();
        push_decimal(&mut out, self.hours);
        out.append("h ");
        push_decimal(&mut out, self.minutes);
        out.append("m ");
        push_decimal(&mut out, self.seconds);
        out.append("s");
        out
    }
}

impl From<i64> for TaskTime {
    fn from(total_seconds: i64) -> (time: TaskTime)
        ensures
            time == TaskTime::of_seconds(total_seconds),
            time.well_formed(),
            total_seconds >= 0 ==> time.hours == total_seconds / 3600 && time.minutes == (
            total_seconds % 3600) / 60 && time.seconds == total_seconds % 60,
    {
        let hours: i64 = total_seconds / 3600;
        let mut remainder: i64 = total_seconds % 3600;
        let minutes: i64 = remainder / 60;
        remainder = remainder % 60;
        let seconds: i64 = remainder;
        TaskTime { hours, minutes, seconds, raw: total_seconds }
    }
}

impl FromSpecImpl<i64> for TaskTime {
    open spec fn obeys_from_spec() -> bool {
        true
    }

    open spec fn from_spec(total_seconds: i64) -> TaskTime {
        TaskTime::of_seconds(total_seconds)
    }
}

} // verus!
