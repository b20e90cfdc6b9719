//! Points in time, lengths of time, and the milliseconds that are stored.

use vstd::prelude::*;
use vstd::string::*;

use crate::text::{natural, numeral, padded, two_digits};

verus! {

/// A point in time, counted from the Unix epoch.
#[derive(Clone, Copy, Debug, PartialEq, Eq, Structural)]
pub struct Timestamp {
    /// Nanoseconds since the epoch; negative before it.
    pub nanos: i128,
}

/// A length of time.
#[derive(Clone, Copy, Debug, PartialEq, Eq, Structural)]
pub struct Span {
    /// The length in nanoseconds.
    pub nanos: u128,
}

pub const NANOS_PER_MILLI: i128 = 1_000_000;

pub const NANOS_PER_SEC: u128 = 1_000_000_000;

/// The stored form of a point in time: whole milliseconds since the epoch,
/// zero before it, and at most what a 64-bit integer holds.
pub open spec fn millis_of(time: Timestamp) -> int {
    if time.nanos < 0 {
        0
    } else if time.nanos / NANOS_PER_MILLI > i64::MAX {
        i64::MAX as int
    } else {
        time.nanos / NANOS_PER_MILLI
    }
}

/// The point in time that a stored number of milliseconds stands for.
pub open spec fn time_of(millis: int) -> int {
    if millis <= 0 {
        0
    } else {
        millis * NANOS_PER_MILLI
    }
}

/// The point in time that a stored number of milliseconds stands for.
pub open spec fn moment(millis: int) -> Timestamp {
    Timestamp { nanos: time_of(millis) as i128 }
}

/// The stored form of a point in time.
pub fn to_millis(time: Timestamp) -> (r: i64)
    ensures
        r == millis_of(time),
        0 <= r,
{
    if time.nanos < 0 {
        0
    } else {
        let millis: i128 = time.nanos / NANOS_PER_MILLI;
        if millis > i64::MAX as i128 {
            i64::MAX
        } else {
            millis as i64
        }
    }
}

/// The point in time that a stored number of milliseconds stands for.
pub fn from_millis(millis: i64) -> (r: Timestamp)
    ensures
        r == moment(millis as int),
        r.nanos == time_of(millis as int),
{
    if millis <= 0 {
        Timestamp { nanos: 0 }
    } else {
        Timestamp { nanos: millis as i128 * NANOS_PER_MILLI }
    }
}

/// Storing a point in time that was read back gives the same milliseconds.
pub proof fn stored_time_is_stable(millis: i64)
    requires
        millis >= 0,
    ensures
        millis_of(moment(millis as int)) == millis,
{
}

/// Reading back a stored point in time gives the last whole millisecond before
/// it, from the epoch up to the largest time that can be stored.
pub proof fn stored_time_is_truncated(time: Timestamp)
    requires
        0 <= time.nanos,
        time.nanos / NANOS_PER_MILLI <= i64::MAX,
    ensures
        time_of(millis_of(time)) <= time.nanos < time_of(millis_of(time)) + NANOS_PER_MILLI,
{
}

impl Timestamp {
    /// The time from an earlier point to this one; nothing where it is not earlier.
    pub open spec fn since(self, earlier: Timestamp) -> nat {
        if self.nanos >= earlier.nanos {
            (self.nanos - earlier.nanos) as nat
        } else {
            0
        }
    }

    /// The time from an earlier point to this one; nothing where it is not earlier.
    pub fn saturating_since(self, earlier: Timestamp) -> (r: Span)
        ensures
            r.nanos == self.since(earlier),
    {
        if self.nanos < earlier.nanos {
            Span { nanos: 0 }
        } else if earlier.nanos >= 0 || self.nanos < 0 {
            Span { nanos: (self.nanos - earlier.nanos) as u128 }
        } else {
            let before: u128 = (-(earlier.nanos + 1)) as u128;
            Span { nanos: self.nanos as u128 + before + 1 }
        }
    }
}

impl Span {
    /// Whether no time passed.
    pub fn is_zero(self) -> (r: bool)
        ensures
            r == (self.nanos == 0),
    {
        self.nanos == 0
    }

    /// The whole seconds.
    pub fn as_secs(self) -> (r: u128)
        ensures
            r == self.nanos / NANOS_PER_SEC,
    {
        self.nanos / NANOS_PER_SEC
    }

    /// The whole milliseconds.
    pub fn as_millis(self) -> (r: u128)
        ensures
            r == self.nanos / 1_000_000,
    {
        self.nanos / 1_000_000
    }
}

/// A number of seconds in hours, minutes and seconds; leading parts that are
/// zero are left out, the parts behind the first are padded.
pub open spec fn clock_text(seconds: nat) -> Seq<char> {
    let hours = seconds / 3600;
    let minutes = (seconds % 3600) / 60;
    let rest = seconds % 60;
    if hours > 0 {
        numeral(hours) + "h"@ + two_digits(minutes) + "m"@ + two_digits(rest) + "s"@
    } else if minutes > 0 {
        numeral(minutes) + "m"@ + two_digits(rest) + "s"@
    } else {
        numeral(rest) + "s"@
    }
}

/// Writes a length of time for a table cell.
pub fn format_elapsed(elapsed: Span) -> (r: String)
    ensures
        r@ == clock_text((elapsed.nanos / NANOS_PER_SEC) as nat),
{
    let seconds: u128 = elapsed.as_secs();
    let hours: u128 = seconds / 3600;
    let minutes: u128 = (seconds % 3600) / 60;
    let rest: u128 = seconds % 60;
    if hours > 0 {
        let mut out: String = natural(hours);
        out.append("h");
        out.append(padded(minutes as u64).as_str());
        out.append("m");
        out.append(padded(rest as u64).as_str());
        out.append("s");
        out
    } else if minutes > 0 {
        let mut out: String = natural(minutes);
        out.append("m");
        out.append(padded(rest as u64).as_str());
        out.append("s");
        out
    } else {
        let mut out: String = natural(rest);
        out.append("s");
        out
    }
}

} // verus!
