//! Points in time, as the log and the search areas write them.

use vstd::prelude::*;

verus! {

/// A date and a time of day, without a time zone.
///
/// The fields are kept as they were read; the order of two values is the
/// order of their fields from the year down to the nanosecond.
#[derive(Clone, Copy, Debug, PartialEq, Eq, Structural)]
pub struct Timestamp {
    pub year: i32,
    pub month: u8,
    pub day: u8,
    pub hour: u8,
    pub minute: u8,
    pub second: u8,
    pub nanosecond: u32,
}

/// What `time::PrimitiveDateTime::parse` reads out of `text` under the
/// format description that `time::format_description::parse_borrowed`, in
/// its version 1, makes of `format`: the fields of the date and time, or
/// nothing where either of the two refuses its input.
pub uninterp spec fn datetime_in_format(text: Seq<char>, format: Seq<char>) -> Option<Timestamp>;

/// The time format of the log, with a fraction of a second.
pub open spec fn long_format() -> Seq<char> {
    "[year]-[month]-[day] [hour]:[minute]:[second].[subsecond] UTC"@
}

/// The time format of the log for a full second.
pub open spec fn short_format() -> Seq<char> {
    "[year]-[month]-[day] [hour]:[minute]:[second] UTC"@
}

/// The time that `text` writes: read in the long format or, where that
/// fails, in the short one.
pub open spec fn spec_parse_time(text: Seq<char>) -> Option<Timestamp> {
    match datetime_in_format(text, long_format()) {
        Some(time) => Some(time),
        None => datetime_in_format(text, short_format()),
    }
}

/// Calls `time::PrimitiveDateTime::parse` on `text` with the format
/// description that `time::format_description::parse_borrowed::<1>` reads
/// from `format`, and copies the fields of the result.  Nothing is claimed
/// of the result but that it depends on the two texts alone.
#[verifier::external_body]
fn parse_datetime(text: &str, format: &str) -> (time: Option<Timestamp>)
    ensures
        time == datetime_in_format(text@, format@),
{
    let items = time::format_description::parse_borrowed::<1>(format).ok()?;
    let read = time::PrimitiveDateTime::parse(text, &items).ok()?;
    Some(
        Timestamp {
            year: read.year(),
            month: u8::from(read.month()),
            day: read.day(),
            hour: read.hour(),
            minute: read.minute(),
            second: read.second(),
            nanosecond: read.nanosecond(),
        },
    )
}

impl Timestamp {
    /// `self` is earlier than `other`.
    pub open spec fn precedes(&self, other: Timestamp) -> bool {
        if self.year != other.year {
            self.year < other.year
        } else if self.month != other.month {
            self.month < other.month
        } else if self.day != other.day {
            self.day < other.day
        } else if self.hour != other.hour {
            self.hour < other.hour
        } else if self.minute != other.minute {
            self.minute < other.minute
        } else if self.second != other.second {
            self.second < other.second
        } else {
            self.nanosecond < other.nanosecond
        }
    }

    /// Whether `self` is earlier than `other`.
    pub fn is_before(&self, other: &Timestamp) -> (earlier: bool)
        ensures
            earlier == self.precedes(*other),
    {
        if self.year != other.year {
            self.year < other.year
        } else if self.month != other.month {
            self.month < other.month
        } else if self.day != other.day {
            self.day < other.day
        } else if self.hour != other.hour {
            self.hour < other.hour
        } else if self.minute != other.minute {
            self.minute < other.minute
        } else if self.second != other.second {
            self.second < other.second
        } else {
            self.nanosecond < other.nanosecond
        }
    }

    /// Reads a time as the log writes it, such as
    /// `2022-04-04 00:55:57.168 UTC` or `2022-04-04 00:55:57 UTC`.
    pub fn parse(text: &str) -> (time: Option<Timestamp>)
        ensures
            time == spec_parse_time(text@),
    {
        match parse_datetime(text, "[year]-[month]-[day] [hour]:[minute]:[second].[subsecond] UTC") {
            Some(time) => Some(time),
            None => parse_datetime(text, "[year]-[month]-[day] [hour]:[minute]:[second] UTC"),
        }
    }
}

} // verus!
