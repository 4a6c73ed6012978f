//! Calendar days counted from the start of the common era, and the Mondays
//! that anchor weeks.

use vstd::prelude::*;

verus! {

/// The number of the first day that chrono's `NaiveDate` can hold,
/// January 1 of the year -262143.
pub const FIRST_DAY: i32 = -95_746_129;

/// The number of the last day that chrono's `NaiveDate` can hold,
/// December 31 of the year 262142.
pub const LAST_DAY: i32 = 95_745_399;

/// The number of December 31 of the year 9999.
pub const LAST_DAY_OF_9999: i32 = 3_652_059;

/// A calendar day in the proleptic Gregorian calendar, numbered so that
/// January 1 of year 1 (a Monday) is day 1.
#[derive(Clone, Copy, Debug, PartialEq, Eq, Structural)]
pub struct Date {
    pub days_from_ce: i32,
}

impl Date {
    /// Whether this is a day that chrono can hold.
    pub open spec fn wf(&self) -> bool {
        FIRST_DAY <= self.days_from_ce <= LAST_DAY
    }
}

/// Days since Monday of the same week: 0 for Monday through 6 for Sunday.
pub open spec fn weekday_index(days: int) -> int {
    (days - 1) % 7
}

/// The Monday that starts the week holding `days`.
pub open spec fn last_monday_of(days: int) -> int {
    days - weekday_index(days)
}

/// The Monday that starts the week after the one holding `days`.
pub open spec fn next_monday_of(days: int) -> int {
    days + 7 - weekday_index(days)
}

/// The year, month and day of the day numbered `days`: the days are counted
/// from March 1 of the year 0 in eras of 400 years, and the year is taken to
/// begin in March so that the leap day comes last.
pub open spec fn civil_of(days: int) -> (int, int, int) {
    let z = days + 305;
    let era = z / 146097;
    let doe = z - era * 146097;
    let yoe = (doe - doe / 1460 + doe / 36524 - doe / 146096) / 365;
    let doy = doe - (365 * yoe + yoe / 4 - yoe / 100);
    let mp = (5 * doy + 2) / 153;
    let d = doy - (153 * mp + 2) / 5 + 1;
    let m = if mp < 10 {
        mp + 3
    } else {
        mp - 9
    };
    let y = yoe + era * 400 + if m <= 2 {
        1int
    } else {
        0int
    };
    (y, m, d)
}

/// The decimal digit for the last place of `n`.
pub open spec fn digit(n: int) -> char {
    ((n % 10) + 48) as u32 as char
}

/// The name `YYYY-MM-DD` of the day numbered `days`, for the years 0 to 9999.
pub open spec fn iso_text(days: int) -> Seq<char> {
    let (y, m, d) = civil_of(days);
    seq![
        digit(y / 1000),
        digit(y / 100),
        digit(y / 10),
        digit(y),
        '-',
        digit(m / 10),
        digit(m),
        '-',
        digit(d / 10),
        digit(d),
    ]
}

/// The ISO form `YYYY-MM-DD` of a day, as chrono renders it.
pub uninterp spec fn iso_date_of(days: int) -> Seq<char>;

/// Relies on `chrono::NaiveDate::from_num_days_from_ce_opt` to build the day
/// and on its `format("%Y-%m-%d")` to render it; `None` where chrono has no
/// such day. In the years 1 to 9999 chrono writes the year with four digits,
/// padded with zeros, and the month and the day with two.
#[verifier::external_body]
fn iso_date(days: i32) -> (r: Option<String>)
    ensures
        r matches Some(s) ==> s@ == iso_date_of(days as int),
        FIRST_DAY <= days <= LAST_DAY ==> r is Some,
        r matches Some(s) ==> (1 <= days <= LAST_DAY_OF_9999 ==> s@ == iso_text(days as int)),
{
    chrono::NaiveDate::from_num_days_from_ce_opt(days).map(|d| d.format("%Y-%m-%d").to_string())
}

impl Date {
    /// The day numbered `days_from_ce`, where chrono can hold it.
    pub fn new(days_from_ce: i32) -> (r: Option<Date>)
        ensures
            r is Some <==> FIRST_DAY <= days_from_ce <= LAST_DAY,
            r matches Some(d) ==> d.days_from_ce == days_from_ce && d.wf(),
    {
        if FIRST_DAY <= days_from_ce && days_from_ce <= LAST_DAY {
            Some(Date { days_from_ce })
        } else {
            None
        }
    }

    /// Days since Monday of this date's week: 0 for Monday through 6 for Sunday.
    pub fn weekday_from_monday(&self) -> (r: u32)
        ensures
            r as int == weekday_index(self.days_from_ce as int),
            r < 7,
    {
        let x: i64 = self.days_from_ce as i64 - 1;
        if x >= 0 {
            ((x as u64) % 7) as u32
        } else {
            let y: u64 = ((-x) as u64) % 7;
            if y == 0 {
                0
            } else {
                (7 - y) as u32
            }
        }
    }

    /// The ISO name `YYYY-MM-DD` of this date, used for week folders;
    /// `None` for a day that chrono cannot hold.
    pub fn folder_name(&self) -> (r: Option<String>)
        ensures
            r matches Some(s) ==> s@ == iso_date_of(self.days_from_ce as int),
            self.wf() ==> r is Some,
            r matches Some(s) ==> (1 <= self.days_from_ce <= LAST_DAY_OF_9999 ==> s@ == iso_text(
                self.days_from_ce as int,
            )),
    {
        iso_date(self.days_from_ce)
    }
}

/// The Monday of the week that holds `today`.
pub fn get_last_monday(today: Date) -> (r: Date)
    requires
        today.wf(),
    ensures
        r.days_from_ce as int == last_monday_of(today.days_from_ce as int),
        r.days_from_ce <= today.days_from_ce,
        today.days_from_ce - r.days_from_ce < 7,
        today.days_from_ce >= FIRST_DAY + 6 ==> r.wf(),
        weekday_index(r.days_from_ce as int) == 0,
{
    let w: u32 = today.weekday_from_monday();
    Date { days_from_ce: today.days_from_ce - w as i32 }
}

/// The Monday that begins the week after the one that holds `today`.
pub fn get_next_monday(today: Date) -> (r: Date)
    requires
        today.wf(),
    ensures
        r.days_from_ce as int == next_monday_of(today.days_from_ce as int),
        today.days_from_ce < r.days_from_ce,
        r.days_from_ce - today.days_from_ce <= 7,
        today.days_from_ce <= LAST_DAY - 7 ==> r.wf(),
        weekday_index(r.days_from_ce as int) == 0,
{
    let w: u32 = today.weekday_from_monday();
    Date { days_from_ce: today.days_from_ce + (7 - w as i32) }
}

} // verus!
