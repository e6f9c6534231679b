//! Calendar dates as plain year/month/day values, with the chronological
//! order the scheduler sorts by.

use vstd::prelude::*;

verus! {

/// A calendar date (no time of day). Field ranges are whatever the producer
/// supplied; the order below is lexicographic on (year, month, day), which is
/// chronological whenever the fields are in their calendar ranges.
#[derive(Clone, Copy, Debug, PartialEq, Eq, Structural)]
pub struct Date {
    pub year: i32,
    pub month: u32,
    pub day: u32,
}

/// `a` is on or before `b`: lexicographic on (year, month, day).
pub open spec fn date_le(a: Date, b: Date) -> bool {
    ||| a.year < b.year
    ||| (a.year == b.year && a.month < b.month)
    ||| (a.year == b.year && a.month == b.month && a.day <= b.day)
}

impl Date {
    /// Chronological comparison, the executable twin of [`date_le`].
    pub fn is_on_or_before(&self, other: &Date) -> (r: bool)
        ensures
            r == date_le(*self, *other),
    {
        if self.year != other.year {
            self.year < other.year
        } else if self.month != other.month {
            self.month < other.month
        } else {
            self.day <= other.day
        }
    }
}

/// The order on dates is total: any two dates compare one way or the other.
pub proof fn lemma_date_le_total(a: Date, b: Date)
    ensures
        date_le(a, b) || date_le(b, a),
{
}

/// The order on dates is transitive.
pub proof fn lemma_date_le_trans(a: Date, b: Date, c: Date)
    requires
        date_le(a, b),
        date_le(b, c),
    ensures
        date_le(a, c),
{
}

} // verus!
