//! Calendar dates written `YYYY-MM-DD`, read by the `time` crate, and the
//! whole days between two of them.
use vstd::prelude::*;

verus! {

/// The Julian day number of the date the `time` crate reads in `s` under the
/// format description `[year]-[month]-[day]`, or `None` when `s` does not
/// read as such a date.
pub uninterp spec fn iso_day(s: Seq<char>) -> Option<i32>;

/// `Date::parse` (time crate) under the format description
/// `[year]-[month]-[day]`, then `Date::to_julian_day`.
///
/// Trusted: the result is the Julian day of the date the crate reads, named
/// [`iso_day`]; `None` when the text does not read as a date.
#[verifier::external_body]
fn julian_day_of(s: &str) -> (r: Option<i32>)
    ensures
        r == iso_day(s@),
{
    let format = time::format_description::parse_borrowed::<1>("[year]-[month]-[day]").ok()?;
    time::Date::parse(s, &format).ok().map(time::Date::to_julian_day)
}

/// The days from a release day to today, both Julian day numbers; `None`
/// when either is unknown.
pub open spec fn days_between_spec(release: Option<i32>, today: Option<i32>) -> Option<i64> {
    match (release, today) {
        (Some(a), Some(b)) => Some((b - a) as i64),
        _ => None,
    }
}

/// The days between two known days: the later day less the earlier, so
/// zero from a day to itself, positive from an earlier release to a later
/// today, and the same count negated when the two are swapped; unknown when
/// either day is unknown.
pub proof fn lemma_days_between(release: Option<i32>, today: Option<i32>)
    ensures
        (release, today) matches (Some(a), Some(b)) ==> {
            &&& days_between_spec(release, today) == Some((b - a) as i64)
            &&& a == b ==> days_between_spec(release, today) == Some(0i64)
            &&& a < b ==> days_between_spec(release, today)->0 > 0
            &&& days_between_spec(today, release)->0 == -days_between_spec(release, today)->0
        },
        release is None || today is None ==> days_between_spec(release, today) is None,
{
}

/// The days from a release day to today, both Julian day numbers.
pub fn days_between(release: Option<i32>, today: Option<i32>) -> (r: Option<i64>)
    ensures
        r == days_between_spec(release, today),
{
    match (release, today) {
        (Some(a), Some(b)) => Some(b as i64 - a as i64),
        _ => None,
    }
}

/// The whole days from `release_date` to `today_iso`, both `YYYY-MM-DD`;
/// `None` when there is no release date or either does not read as a date.
pub fn days_since_release(release_date: Option<&str>, today_iso: &str) -> (r: Option<i64>)
    ensures
        r == match release_date {
            None => None,
            Some(d) => days_between_spec(iso_day(d@), iso_day(today_iso@)),
        },
{
    let release = match release_date {
        None => {
            return None;
        },
        Some(d) => julian_day_of(d),
    };
    let today = julian_day_of(today_iso);
    days_between(release, today)
}

} // verus!
