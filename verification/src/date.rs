//! Calendar dates as plain year/month/day values, and the month-delta
//! heuristic that drives periodic counter updates.

use vstd::prelude::*;

verus! {

/// A calendar date held as plain components: the month number runs from 1
/// (January) to 12 (December), the day of month from 1 to 31.
#[derive(Clone, Copy, PartialEq, Eq, Structural, Debug)]
pub struct Date {
    pub year: i32,
    pub month: u32,
    pub day: u32,
}

impl Date {
    /// The month and day components are within their calendar ranges.
    pub open spec fn wf(self) -> bool {
        &&& 1 <= self.month <= 12
        &&& 1 <= self.day <= 31
    }

    /// Builds a date from its components, rejecting out-of-range months and days.
    pub fn new(year: i32, month: u32, day: u32) -> (r: Option<Date>)
        ensures
            r matches Some(d) ==> d == (Date { year, month, day }) && d.wf(),
            r is Some <==> (Date { year, month, day }).wf(),
    {
        if 1 <= month && month <= 12 && 1 <= day && day <= 31 {
            Some(Date { year, month, day })
        } else {
            None
        }
    }

    /// Whether the components are within their calendar ranges.
    pub fn valid(&self) -> (r: bool)
        ensures
            r == self.wf(),
    {
        1 <= self.month && self.month <= 12 && 1 <= self.day && self.day <= 31
    }

    /// Whether this date is on or before `other`.
    pub fn le(&self, other: &Date) -> (r: bool)
        ensures
            r == date_le(*self, *other),
    {
        if self.year != other.year {
            self.year < other.year
        } else if self.month != other.month {
            self.month < other.month
        } else {
            self.day <= other.day
        }
    }
}

/// Chronological order on dates: year first, then month, then day.
pub open spec fn date_le(a: Date, b: Date) -> bool {
    if a.year != b.year {
        a.year < b.year
    } else if a.month != b.month {
        a.month < b.month
    } else {
        a.day <= b.day
    }
}

/// The count of month columns crossed from `from` to `to`: starting in
/// December the count resets to `to`'s month number; starting anywhere else it
/// is the plain difference of the month numbers. Day of month and, outside the
/// December rule, year are never consulted.
pub open spec fn month_delta(from: Date, to: Date) -> int {
    if from.month == 12 {
        to.month as int
    } else {
        to.month - from.month
    }
}

/// The inputs on which the month delta is meaningful: ordered well-formed
/// dates whose month numbers do not decrease unless the span starts in
/// December.
pub open spec fn month_delta_defined(from: Date, to: Date) -> bool {
    &&& from.wf()
    &&& to.wf()
    &&& date_le(from, to)
    &&& from.month != 12 ==> from.month <= to.month
}

/// Computes the month delta between two dates.
pub fn month_diff(from: Date, to: Date) -> (r: u32)
    requires
        month_delta_defined(from, to),
    ensures
        r == month_delta(from, to),
        r <= 12,
{
    if from.month == 12 {
        to.month
    } else {
        to.month - from.month
    }
}

/// Law: a span from a non-December date to itself crosses no month boundary.
/// (From a December date the delta is that date's own month number, 12.)
pub proof fn lemma_month_delta_same_date(d: Date)
    requires
        d.wf(),
        d.month != 12,
    ensures
        month_delta(d, d) == 0,
{
}

/// Law: between two dates of the same year whose span starts in January
/// through November, the month delta is exactly the difference of the month
/// numbers.
pub proof fn lemma_month_delta_same_year(from: Date, to: Date)
    requires
        from.wf(),
        to.wf(),
        date_le(from, to),
        from.year == to.year,
        from.month <= 11,
    ensures
        month_delta(from, to) == to.month - from.month,
{
}

/// Law: from a December date the month delta is `to`'s month number, whatever
/// the day or year of either date.
pub proof fn lemma_month_delta_from_december(from: Date, to: Date)
    requires
        from.month == 12,
    ensures
        month_delta(from, to) == to.month,
{
}

/// Relies on chrono::Utc::now, DateTime::date_naive and the Datelike
/// accessors: the current civil date's month number is between 1 and 12 and
/// its day of month between 1 and 31.
#[verifier::external_body]
pub(crate) fn today() -> (r: Date)
    ensures
        r.wf(),
{
    let d = chrono::Utc::now().date_naive();
    Date {
        year: chrono::Datelike::year(&d),
        month: chrono::Datelike::month(&d),
        day: chrono::Datelike::day(&d),
    }
}

/// Relies on chrono::DateTime::<Utc>::from_timestamp_millis, which returns
/// None exactly on an out-of-range number of milliseconds, and on the Datelike
/// accessors: any civil date it yields has a month number between 1 and 12 and
/// a day of month between 1 and 31.
#[verifier::external_body]
pub(crate) fn date_from_unix_millis(millis: i64) -> (r: Option<Date>)
    ensures
        r matches Some(d) ==> d.wf(),
{
    match chrono::DateTime::<chrono::Utc>::from_timestamp_millis(millis) {
        Some(t) => {
            let d = t.date_naive();
            Some(Date {
                year: chrono::Datelike::year(&d),
                month: chrono::Datelike::month(&d),
                day: chrono::Datelike::day(&d),
            })
        },
        None => None,
    }
}

} // verus!
