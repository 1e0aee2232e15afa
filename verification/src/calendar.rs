//! Points in time and calendar dates, held as plain integers.
use chrono::Datelike;
use vstd::prelude::*;

verus! {

/// The earliest representable instant, in microseconds since 1970-01-01 00:00:00:
/// the first instant of the year -262143.
pub const MIN_MICROS: i64 = -8334601228800000000i64;

/// The latest representable instant, in microseconds since 1970-01-01 00:00:00:
/// the last microsecond of the year 262142.
pub const MAX_MICROS: i64 = 8210266876799999999i64;

/// The earliest representable date, in days from the common era (0001-01-01 is day 1).
pub const MIN_DAYS: i32 = -95746129i32;

/// The latest representable date, in days from the common era.
pub const MAX_DAYS: i32 = 95745399i32;

/// A point in time without time zone, to the microsecond.
#[derive(Clone, Copy, Debug, PartialEq, Eq, Structural, Hash)]
pub struct Timestamp {
    pub micros: i64,
}

/// A calendar date, counted in days from the common era.
#[derive(Clone, Copy, Debug, PartialEq, Eq, Structural, Hash)]
pub struct Date {
    pub days: i32,
}

impl Timestamp {
    /// The instant lies in the representable range.
    pub open spec fn valid(self) -> bool {
        MIN_MICROS <= self.micros <= MAX_MICROS
    }

    /// The earliest representable instant.
    pub fn min() -> (r: Self)
        ensures
            r.micros == MIN_MICROS,
            r.valid(),
    {
        Timestamp { micros: MIN_MICROS }
    }
}

impl Date {
    /// The date lies in the representable range.
    pub open spec fn valid(self) -> bool {
        MIN_DAYS <= self.days <= MAX_DAYS
    }
}

/// The text that `chrono` writes for the instant that lies `micros`
/// microseconds after 1970-01-01 00:00:00.
pub uninterp spec fn timestamp_text(micros: i64) -> Seq<char>;

/// The text of an instant, as `chrono::NaiveDateTime` displays it.
///
/// Converts the microseconds with `chrono::DateTime::from_timestamp_micros`
/// and calls the `Display` of `chrono::NaiveDateTime`; the text itself is left
/// to that name.
#[verifier::external_body]
pub(crate) fn timestamp_to_string(t: Timestamp) -> (r: String)
    requires
        t.valid(),
    ensures
        r@ == timestamp_text(t.micros),
{
    chrono::DateTime::from_timestamp_micros(t.micros).unwrap().naive_utc().to_string()
}

/// The format in which a search domain writes an instant: date, time and
/// six digits of the second's fraction.
pub const TIMESTAMP_FORMAT: &'static str = "%Y-%m-%d %H:%M:%S%.6f";

/// What `chrono::NaiveDateTime::parse_from_str` makes of a text in a format:
/// the instant in microseconds since 1970-01-01 00:00:00, or the text of its
/// error.
pub uninterp spec fn parsed_timestamp(text: Seq<char>, format: Seq<char>) -> Result<i64, Seq<char>>;

/// Reads an instant written in the given format.
///
/// Calls `chrono::NaiveDateTime::parse_from_str` and converts the result to
/// microseconds with `and_utc().timestamp_micros()`; on failure the error's
/// `Display` text is handed back. Nothing is claimed of the range of the
/// value: a leap second (second 60) is kept by `chrono` as a fraction of more
/// than one second, so the microseconds run on into the next second, and
/// past `MAX_MICROS` in the last second of the range.
#[verifier::external_body]
pub(crate) fn parse_timestamp(text: &str, format: &str) -> (r: Result<Timestamp, String>)
    ensures
        match r {
            Ok(t) => parsed_timestamp(text@, format@) == Ok::<i64, Seq<char>>(t.micros),
            Err(e) => parsed_timestamp(text@, format@) == Err::<i64, Seq<char>>(e@),
        },
{
    match chrono::NaiveDateTime::parse_from_str(text, format) {
        Ok(t) => Ok(Timestamp { micros: t.and_utc().timestamp_micros() }),
        Err(e) => Err(e.to_string()),
    }
}

/// The day that `chronoutil` reaches by adding a number of years to a day:
/// the same month and day of the month, moved back to the month's last day
/// where the target month is shorter.
pub uninterp spec fn years_added(start_days: i32, years: i32) -> i32;

/// A day some years later.
///
/// Converts the day with `chrono::NaiveDate::from_num_days_from_ce_opt`,
/// adds `chronoutil::RelativeDuration::years(years)` and converts back. A
/// year later is 365 days later, or 366 where a 29 February lies between;
/// 29 February itself moves to 28 February. The addition panics where the
/// target year lies past the representable range; the precondition keeps
/// that out (the last representable years, 262141 and 262142, hold no
/// 29 February, so a start 365 days before the last day still has its year).
#[verifier::external_body]
pub(crate) fn add_years(start: Date, years: i32) -> (r: Date)
    requires
        MIN_DAYS <= start.days <= MAX_DAYS,
        0 <= years,
        start.days + 366 * years <= MAX_DAYS + 1,
    ensures
        r.days == years_added(start.days, years),
        start.days <= r.days <= MAX_DAYS,
        years == 1 ==> start.days + 365 <= r.days <= start.days + 366,
{
    let d = chrono::NaiveDate::from_num_days_from_ce_opt(start.days).unwrap();
    let later = d + chronoutil::RelativeDuration::years(years);
    Date { days: later.num_days_from_ce() }
}

/// The last day of the fiscal year that starts on the given day: the day
/// before the same day a year later.
pub open spec fn fiscal_year_end(start_days: i32) -> int {
    years_added(start_days, 1) - 1
}

/// The last day of a fiscal year, given its first: one year on, less a day.
pub fn fiscal_year_end_of(start: Date) -> (r: Date)
    requires
        MIN_DAYS <= start.days <= MAX_DAYS - 365,
    ensures
        r.days == fiscal_year_end(start.days),
        start.days + 364 <= r.days <= start.days + 365,
{
    let next = add_years(start, 1);
    Date { days: next.days - 1 }
}

} // verus!
