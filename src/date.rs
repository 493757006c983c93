//! Calendar dates of timestamps, and their order.

use chrono::Datelike;
use vstd::prelude::*;

verus! {

/// A day of the proleptic Gregorian calendar.
#[derive(Clone, Copy, Debug, PartialEq, Eq, Structural)]
pub struct CalendarDate {
    pub year: i32,
    pub month: u32,
    pub day: u32,
}

impl CalendarDate {
    /// Month and day are in their calendar ranges.
    pub open spec fn wf(self) -> bool {
        1 <= self.month <= 12 && 1 <= self.day <= 31
    }

    /// The date as a (year, month, day) triple of integers.
    pub open spec fn triple(self) -> (int, int, int) {
        (self.year as int, self.month as int, self.day as int)
    }

    /// `self` lies strictly before `other`.
    pub open spec fn spec_before(self, other: CalendarDate) -> bool {
        self.year < other.year || (self.year == other.year && (self.month < other.month || (
        self.month == other.month && self.day < other.day)))
    }

    /// A number that grows with the date: `year * 10000 + month * 100 + day`.
    pub open spec fn ordinal(self) -> int {
        self.year * 10000 + self.month * 100 + self.day
    }

    /// Whether `self` lies strictly before `other`.
    pub fn is_before(&self, other: &CalendarDate) -> (r: bool)
        ensures
            r == self.spec_before(*other),
    {
        self.year < other.year || (self.year == other.year && (self.month < other.month || (
        self.month == other.month && self.day < other.day)))
    }

    /// The ordinal, as an exact integer.
    pub fn ordinal_value(&self) -> (r: i64)
        requires
            self.wf(),
        ensures
            r == self.ordinal(),
    {
        self.year as i64 * 10000 + self.month as i64 * 100 + self.day as i64
    }
}

/// The calendar date, in its own offset, of an RFC 3339 timestamp, or none
/// where the text is not one.
pub uninterp spec fn rfc3339_local_date(s: Seq<char>) -> Option<(int, int, int)>;

/// The value of a decimal digit character.
pub open spec fn digit_value(c: char) -> int {
    c as int - '0' as int
}

/// The date written at the head of an RFC 3339 timestamp: `YYYY-MM-DD`.
pub open spec fn written_date(s: Seq<char>) -> (int, int, int) {
    (
        digit_value(s[0]) * 1000 + digit_value(s[1]) * 100 + digit_value(s[2]) * 10 + digit_value(
            s[3],
        ),
        digit_value(s[5]) * 10 + digit_value(s[6]),
        digit_value(s[8]) * 10 + digit_value(s[9]),
    )
}

/// Relies on chrono's `DateTime::parse_from_rfc3339` followed by
/// `date_naive`: the local calendar date of the timestamp, or an error where
/// the text is not RFC 3339. chrono's `Datelike` documents months 1 to 12 and
/// days 1 to 31. chrono's RFC 3339 parser reads the date from the first ten
/// characters, `YYYY-MM-DD`, and the local date of the result is that
/// written date.
#[verifier::external_body]
pub(crate) fn parse_rfc3339_date(s: &str) -> (r: Option<CalendarDate>)
    ensures
        r is Some <==> rfc3339_local_date(s@) is Some,
        r is Some ==> r->0.triple() == rfc3339_local_date(s@)->0 && r->0.wf(),
        r is Some ==> s@.len() >= 10 && r->0.triple() == written_date(s@),
{
    match chrono::DateTime::parse_from_rfc3339(s) {
        Ok(t) => {
            let d = t.date_naive();
            Some(CalendarDate { year: d.year(), month: d.month(), day: d.day() })
        },
        Err(_) => None,
    }
}

} // verus!
