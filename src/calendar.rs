//! Calendar dates: parsing, weekdays and stepping back by days, through chrono.

use chrono::Datelike;
use vstd::prelude::*;

use crate::text::zero_padded;

verus! {

/// Earliest year that chrono's `NaiveDate` represents.
pub const FIRST_YEAR: i32 = -262143;

/// Latest year that chrono's `NaiveDate` represents.
pub const LAST_YEAR: i32 = 262142;

/// A day of the proleptic Gregorian calendar.
#[derive(Debug, Clone, Copy, PartialEq, Eq, Structural)]
pub struct CivilDate {
    pub year: i32,
    pub month: u32,
    pub day: u32,
}

pub open spec fn is_leap_year(y: int) -> bool {
    (y % 4 == 0 && y % 100 != 0) || y % 400 == 0
}

pub open spec fn days_in_month(y: int, m: int) -> int {
    if m == 2 {
        if is_leap_year(y) {
            29
        } else {
            28
        }
    } else if m == 4 || m == 6 || m == 9 || m == 11 {
        30
    } else {
        31
    }
}

/// Days from 1970-01-01 to the given day (negative before it).
pub open spec fn days_from_civil(year: int, month: int, day: int) -> int {
    let y = if month <= 2 {
        year - 1
    } else {
        year
    };
    let era = y / 400;
    let yoe = y - era * 400;
    let mp = if month > 2 {
        month - 3
    } else {
        month + 9
    };
    let doy = (153 * mp + 2) / 5 + day - 1;
    let doe = yoe * 365 + yoe / 4 - yoe / 100 + doy;
    era * 146097 + doe - 719468
}

/// Day of the week, Monday 0 through Sunday 6.
pub open spec fn weekday_index(day_number: int) -> int {
    (day_number + 3) % 7
}

/// Index of Saturday among the days of the week.
pub const SATURDAY: u32 = 5;

/// The year as `%Y` writes it: four digits at least, and a sign outside `0..=9999`.
pub open spec fn year_text(y: int) -> Seq<char> {
    let sign = if y < 0 {
        seq!['-']
    } else if y > 9999 {
        seq!['+']
    } else {
        Seq::<char>::empty()
    };
    sign + zero_padded(if y < 0 {
        (-y) as nat
    } else {
        y as nat
    }, 4)
}

impl CivilDate {
    /// A real calendar day within chrono's range of years.
    pub open spec fn wf(self) -> bool {
        &&& FIRST_YEAR <= self.year <= LAST_YEAR
        &&& 1 <= self.month <= 12
        &&& 1 <= self.day <= days_in_month(self.year as int, self.month as int)
    }

    pub open spec fn day_number(self) -> int {
        days_from_civil(self.year as int, self.month as int, self.day as int)
    }

    /// The date written `YYYY-MM-DD`.
    pub open spec fn iso_text(self) -> Seq<char> {
        year_text(self.year as int) + seq!['-'] + zero_padded(self.month as nat, 2) + seq!['-']
            + zero_padded(self.day as nat, 2)
    }
}

/// Day number of chrono's earliest date.
pub open spec fn first_day_number() -> int {
    days_from_civil(FIRST_YEAR as int, 1, 1)
}

/// What chrono reads from a `%Y-%m-%d` text, as year, month and day.
pub uninterp spec fn iso_date_parse(text: Seq<char>) -> Option<(int, int, int)>;

/// Relies on chrono's `NaiveDate::parse_from_str` with the format `%Y-%m-%d`:
/// the outcome depends on the text alone, and a date it returns is a real day
/// within chrono's range.
#[verifier::external_body]
fn parse_iso(text: &str) -> (r: Option<CivilDate>)
    ensures
        r is Some <==> iso_date_parse(text@) is Some,
        r matches Some(d) ==> d.wf() && iso_date_parse(text@) == Some(
            (d.year as int, d.month as int, d.day as int),
        ),
{
    chrono::NaiveDate::parse_from_str(text, "%Y-%m-%d").ok().map(
        |d| CivilDate { year: d.year(), month: d.month(), day: d.day() },
    )
}

/// Relies on chrono's `Datelike::weekday` and `Weekday::num_days_from_monday`.
#[verifier::external_body]
fn weekday_of(date: &CivilDate) -> (r: u32)
    requires
        date.wf(),
    ensures
        r as int == weekday_index(date.day_number()),
{
    chrono::NaiveDate::from_ymd_opt(date.year, date.month, date.day).unwrap().weekday().num_days_from_monday()
}

/// Relies on chrono's `NaiveDate::checked_sub_days`: the day `days` days
/// earlier, or `None` where that falls before chrono's earliest date.
#[verifier::external_body]
fn days_earlier(date: &CivilDate, days: u32) -> (r: Option<CivilDate>)
    requires
        date.wf(),
    ensures
        r is Some <==> date.day_number() - days >= first_day_number(),
        r matches Some(e) ==> e.wf() && e.day_number() == date.day_number() - days,
{
    chrono::NaiveDate::from_ymd_opt(date.year, date.month, date.day).unwrap().checked_sub_days(
        chrono::Days::new(days as u64),
    ).map(|e| CivilDate { year: e.year(), month: e.month(), day: e.day() })
}

/// Relies on chrono's `%Y-%m-%d` formatting of a `NaiveDate`.
#[verifier::external_body]
fn format_iso(date: &CivilDate) -> (r: String)
    requires
        date.wf(),
    ensures
        r@ == date.iso_text(),
{
    chrono::NaiveDate::from_ymd_opt(date.year, date.month, date.day).unwrap().format(
        "%Y-%m-%d",
    ).to_string()
}

impl CivilDate {
    /// Reads a `YYYY-MM-DD` date.
    pub fn parse(text: &str) -> (r: Option<CivilDate>)
        ensures
            r is Some <==> iso_date_parse(text@) is Some,
            r matches Some(d) ==> d.wf() && iso_date_parse(text@) == Some(
                (d.year as int, d.month as int, d.day as int),
            ),
    {
        parse_iso(text)
    }

    /// Whether the date falls on a Saturday.
    pub fn is_saturday(&self) -> (r: bool)
        requires
            self.wf(),
        ensures
            r == (weekday_index(self.day_number()) == SATURDAY),
    {
        weekday_of(self) == SATURDAY
    }

    /// The date written `YYYY-MM-DD`.
    pub fn to_iso_string(&self) -> (r: String)
        requires
            self.wf(),
        ensures
            r@ == self.iso_text(),
    {
        format_iso(self)
    }
}

/// `t` is the `YYYY-MM-DD` text of the day numbered `day_number`.
pub open spec fn is_iso_text_of_day(t: Seq<char>, day_number: int) -> bool {
    exists|e: CivilDate| e.wf() && e.day_number() == day_number && t == #[trigger] e.iso_text()
}

/// Number of days listed on the recent-dates page.
pub const RECENT_DAYS: u32 = 10;

/// The `RECENT_DAYS` dates that end at `most_recent`, latest first, written
/// `YYYY-MM-DD`; `None` where the earliest of them is before chrono's range.
pub fn recent_dates(most_recent: &CivilDate) -> (r: Option<Vec<String>>)
    requires
        most_recent.wf(),
    ensures
        r is Some <==> most_recent.day_number() - (RECENT_DAYS - 1) >= first_day_number(),
        r matches Some(dates) ==> dates@.len() == RECENT_DAYS && forall|i: int|
            0 <= i < RECENT_DAYS ==> is_iso_text_of_day(
                #[trigger] dates@[i]@,
                most_recent.day_number() - i,
            ),
{
    let mut dates: Vec<String> = Vec::new();
    let mut i: u32 = 0;
    while i < RECENT_DAYS
        invariant
            most_recent.wf(),
            i <= RECENT_DAYS,
            dates@.len() == i,
            most_recent.day_number() - (i - 1) >= first_day_number() || i == 0,
            forall|k: int|
                0 <= k < i ==> is_iso_text_of_day(
                    #[trigger] dates@[k]@,
                    most_recent.day_number() - k,
                ),
        decreases RECENT_DAYS - i,
    {
        match days_earlier(most_recent, i) {
            Some(day) => {
                let text = format_iso(&day);
                dates.push(text);
                assert(dates@[i as int]@ == day.iso_text());
                assert(is_iso_text_of_day(dates@[i as int]@, most_recent.day_number() - i));
            },
            None => {
                return None;
            },
        }
        i = i + 1;
    }
    Some(dates)
}

} // verus!
