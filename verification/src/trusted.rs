//! The boundary to the outside crates. Each function here is trusted: its
//! body makes one outside call, and Verus believes the stated contract
//! instead of reading the body. Everything else in this crate is verified
//! against these contracts.

use vstd::prelude::*;
use chrono::Datelike;
use crate::date::Date;

verus! {

/// What `str::to_lowercase` returns for a given character sequence. The
/// full Unicode mapping is far too large to state, but it depends on the
/// characters alone, so it gets a name that the contracts can share.
pub uninterp spec fn lower_of(s: Seq<char>) -> Seq<char>;

/// What `chrono::NaiveDate::parse_from_str` with the `%Y-%m-%d` format
/// accepts, as plain year/month/day values; `None` where it errors. The
/// calendar's validity rules are too large to restate, but the result
/// depends on the text alone, so it gets a name.
pub uninterp spec fn ymd_of(s: Seq<char>) -> Option<Date>;

/// Relies on `str::to_lowercase`: the result depends on the characters
/// alone, and an empty string stays empty.
#[verifier::external_body]
pub(crate) fn lowercase(s: &str) -> (r: String)
    ensures
        r@ == lower_of(s@),
        s@.len() == 0 ==> r@.len() == 0,
{
    s.to_lowercase()
}

/// Relies on `chrono::NaiveDate::parse_from_str` with the `%Y-%m-%d`
/// format, and on the `Datelike` accessors `year`, `month` and `day` to
/// read the parsed date back as plain values.
#[verifier::external_body]
pub(crate) fn parse_ymd(s: &str) -> (r: Option<Date>)
    ensures
        r == ymd_of(s@),
{
    chrono::NaiveDate::parse_from_str(s, "%Y-%m-%d").ok().map(
        |d| Date { year: d.year(), month: d.month(), day: d.day() },
    )
}

/// Relies on `chrono::Utc::now` for the wall clock, read once per call, and
/// on `DateTime::timestamp` to convert it to whole seconds since the Unix
/// epoch. Nothing can be promised of the clock's value.
#[verifier::external_body]
pub(crate) fn now_seconds() -> i64 {
    chrono::Utc::now().timestamp()
}

/// Relies on `uuid::Uuid::new_v4` for a random identifier and on its
/// `Display` form: the hyphenated rendering is always 36 characters. The
/// value itself is random, so nothing more is promised.
#[verifier::external_body]
pub(crate) fn fresh_task_id() -> (r: String)
    ensures
        r@.len() == 36,
{
    uuid::Uuid::new_v4().to_string()
}

} // verus!
