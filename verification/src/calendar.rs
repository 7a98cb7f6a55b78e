//! Calendar arithmetic, which this library takes from `chrono`: a civil date
//! some days after another, a date and time some microseconds and hours after
//! the start of a day, and the clock time some microseconds after midnight.
use vstd::prelude::*;

verus! {

/// The civil date `(year, month, day)` that lies `days` days after the given
/// date in the proleptic Gregorian calendar; `None` where the given date does
/// not exist or the result leaves the range of dates that `chrono` holds.
pub uninterp spec fn date_after_days(year: i32, month: u32, day: u32, days: i64) -> Option<
    (i32, u32, u32),
>;

/// The civil date and clock time `(year, month, day, hour, minute, second)`
/// reached from the start of the given day after `micros` microseconds and
/// then `hours` hours, the sub-second part dropped; `None` where the given
/// date does not exist or a step leaves the range that `chrono` holds.
pub uninterp spec fn datetime_after(
    year: i32,
    month: u32,
    day: u32,
    micros: i64,
    hours: i64,
) -> Option<(i32, u32, u32, u32, u32, u32)>;

/// The clock time `(hour, minute, second)` reached `micros` microseconds after
/// midnight, whole days dropped: the clock wraps round in both directions.
pub open spec fn clock_after_midnight(micros: int) -> (int, int, int) {
    let seconds = (micros / 1_000_000) % 86_400;
    (seconds / 3_600, (seconds / 60) % 60, seconds % 60)
}

/// Adds whole days to a civil date with `chrono`: `NaiveDate::from_ymd_opt`,
/// `TimeDelta::try_days` and `NaiveDate::checked_add_signed`, each of which
/// returns `None` rather than panic. The contract only names the result.
#[verifier::external_body]
pub(crate) fn add_days(year: i32, month: u32, day: u32, days: i64) -> (r: Option<(i32, u32, u32)>)
    ensures
        r == date_after_days(year, month, day, days),
{
    let start = chrono::NaiveDate::from_ymd_opt(year, month, day)?;
    let moved = start.checked_add_signed(chrono::TimeDelta::try_days(days)?)?;
    Some(
        (
            chrono::Datelike::year(&moved),
            chrono::Datelike::month(&moved),
            chrono::Datelike::day(&moved),
        ),
    )
}

/// Adds microseconds and then hours to the start of a civil day with `chrono`:
/// `NaiveDate::from_ymd_opt` and `NaiveDate::and_time` with `NaiveTime::MIN`,
/// then `NaiveDateTime::checked_add_signed` twice, with
/// `TimeDelta::microseconds` and `TimeDelta::try_hours`. The contract only
/// names the result.
#[verifier::external_body]
pub(crate) fn add_micros_and_hours(year: i32, month: u32, day: u32, micros: i64, hours: i64) -> (r:
    Option<(i32, u32, u32, u32, u32, u32)>)
    ensures
        r == datetime_after(year, month, day, micros, hours),
{
    let first = chrono::NaiveDate::from_ymd_opt(year, month, day)?;
    let start = first.and_time(chrono::NaiveTime::MIN);
    let later = start.checked_add_signed(chrono::TimeDelta::microseconds(micros))?;
    let moved = later.checked_add_signed(chrono::TimeDelta::try_hours(hours)?)?;
    let (date, time) = (moved.date(), moved.time());
    Some((
        chrono::Datelike::year(&date),
        chrono::Datelike::month(&date),
        chrono::Datelike::day(&date),
        chrono::Timelike::hour(&time),
        chrono::Timelike::minute(&time),
        chrono::Timelike::second(&time),
    ))
}

/// The clock time some microseconds after midnight, with `chrono`:
/// `NaiveTime::overflowing_add_signed` on `NaiveTime::MIN` with
/// `TimeDelta::microseconds`, which never fails. `chrono` splits the
/// microseconds into whole seconds, rounded down, and a fraction, adds the
/// seconds and keeps what is left of them modulo a day.
#[verifier::external_body]
pub(crate) fn clock_after(micros: i64) -> (r: (u32, u32, u32))
    ensures
        (r.0 as int, r.1 as int, r.2 as int) == clock_after_midnight(micros as int),
{
    let span = chrono::TimeDelta::microseconds(micros);
    let time = chrono::NaiveTime::MIN.overflowing_add_signed(span).0;
    (
        chrono::Timelike::hour(&time),
        chrono::Timelike::minute(&time),
        chrono::Timelike::second(&time),
    )
}

} // verus!
