//! Calendar dates as the tool reads them from the command line and
//! matches them against forecast timestamps.

use vstd::prelude::*;
use vstd::string::*;

use crate::error::WeatherError;
use crate::text::{decimal, digit_char, padded, signed_decimal, signed_decimal_text, zeros};

verus! {

/// The earliest year that a calendar date can have.
pub const MIN_YEAR: i32 = -262143;

/// The latest year that a calendar date can have.
pub const MAX_YEAR: i32 = 262142;

/// Whether `year` is a leap year of the proleptic Gregorian calendar.
pub open spec fn is_leap_year(year: int) -> bool {
    year % 4 == 0 && (year % 100 != 0 || year % 400 == 0)
}

/// The number of days of `month` (1 to 12) in `year`.
pub open spec fn days_in_month(year: int, month: int) -> int {
    if month == 2 {
        if is_leap_year(year) {
            29
        } else {
            28
        }
    } else if month == 4 || month == 6 || month == 9 || month == 11 {
        30
    } else {
        31
    }
}

/// Whether year, month and day name a day of the calendar in the supported range.
pub open spec fn valid_date(year: int, month: int, day: int) -> bool {
    &&& MIN_YEAR <= year <= MAX_YEAR
    &&& 1 <= month <= 12
    &&& 1 <= day <= days_in_month(year, month)
}

/// The year as ISO 8601 writes it: four digits, or a sign and at least four digits
/// outside the years 0 to 9999.
pub open spec fn year_text(year: int) -> Seq<char> {
    if 0 <= year <= 9999 {
        padded(year as nat, 4)
    } else if year < 0 {
        seq!['-'] + padded((-year) as nat, 4)
    } else {
        seq!['+'] + padded(year as nat, 4)
    }
}

/// A date as `year-month-day`, month and day with two digits each.
pub open spec fn iso_date_text(date: (int, int, int)) -> Seq<char> {
    year_text(date.0) + seq!['-'] + padded(date.1 as nat, 2) + seq!['-'] + padded(date.2 as nat, 2)
}

/// A date as `day.month`, each with two digits.
pub open spec fn day_month_text(date: (int, int, int)) -> Seq<char> {
    padded(date.2 as nat, 2) + seq!['.'] + padded(date.1 as nat, 2)
}

/// A date as `day.month.year`, day and month with two digits each and the year with four.
pub open spec fn dmy_text(year: int, month: int, day: int) -> Seq<char> {
    padded(day as nat, 2) + seq!['.'] + padded(month as nat, 2) + seq!['.'] + padded(year as nat, 4)
}

/// Whether `r` reads the zero-padded `day.month.year` of every day in the years
/// 1000 to 9999 as that day.
pub open spec fn reads_padded_dates<E>(text: Seq<char>, r: Result<Date, E>) -> bool {
    forall|year: int, month: int, day: int|
        valid_date(year, month, day) && 1000 <= year <= 9999 && text == #[trigger] dmy_text(
            year,
            month,
            day,
        ) ==> (r matches Ok(d) && d@ == (year, month, day))
}

/// A year from 1000 to 9999 has four digits.
proof fn lemma_four_digit_year(year: int)
    requires
        1000 <= year <= 9999,
    ensures
        signed_decimal(year) == padded(year as nat, 4),
{
    let n = year as nat;
    assert(decimal(n / 1000) =~= seq![digit_char((n / 1000) as int)]);
    assert(decimal(n / 100).len() == 2);
    assert(decimal(n / 10).len() == 3);
    assert(decimal(n).len() == 4);
    assert(zeros(0) =~= Seq::<char>::empty());
    assert(padded(n, 4) =~= decimal(n));
}

/// A day of the calendar.
#[derive(Clone, Copy, Debug, PartialEq, Eq, Structural)]
pub struct Date {
    year: i32,
    month: u32,
    day: u32,
}

impl View for Date {
    type V = (int, int, int);

    /// Year, month (1 to 12) and day of the month (from 1).
    closed spec fn view(&self) -> (int, int, int) {
        (self.year as int, self.month as int, self.day as int)
    }
}

/// The (year, month, day) that chrono's `NaiveDate::parse_from_str` reads from a text
/// with the format `%d.%m.%Y`, or none where it refuses the text.
pub uninterp spec fn chrono_dmy_date(text: Seq<char>) -> Option<(int, int, int)>;

#[verifier::external_type_specification]
#[verifier::external_body]
pub struct ExChronoParseError(chrono::format::ParseError);

/// Calls chrono's `NaiveDate::parse_from_str` with the format `%d.%m.%Y`.
/// Claimed: it succeeds exactly where `chrono_dmy_date` has a date, and then gives that
/// date; the `NaiveDate` it gives is a day of the calendar in chrono's range, which is
/// the range of [`valid_date`]. Of what it accepts, only this is stated: the zero-padded
/// `day.month.year` of a day in the years 1000 to 9999 (as `%d`, `%m` and `%Y` are
/// documented), which it reads as that day.
#[verifier::external_body]
fn chrono_parse_dmy(text: &str) -> (r: Result<Date, chrono::format::ParseError>)
    ensures
        r is Ok <==> chrono_dmy_date(text@) is Some,
        r matches Ok(d) ==> Some(d@) == chrono_dmy_date(text@),
        reads_padded_dates(text@, r),
{
    match chrono::NaiveDate::parse_from_str(text, "%d.%m.%Y") {
        Ok(d) => Ok(
            Date {
                year: chrono::Datelike::year(&d),
                month: chrono::Datelike::month(&d),
                day: chrono::Datelike::day(&d),
            },
        ),
        Err(e) => Err(e),
    }
}

/// Reads the system clock as chrono's `Utc::now()` does (seconds since the Unix epoch
/// through `DateTime::from_timestamp`) and takes the year of the UTC date. Where
/// `Utc::now()` would panic (a clock before 1970) or chrono has no date for the
/// time, it gives none. Claimed: a year it gives is in chrono's range of dates.
/// Which year it is depends on the clock.
#[verifier::external_body]
fn chrono_current_year() -> (year: Option<i32>)
    ensures
        year matches Some(y) ==> MIN_YEAR <= y <= MAX_YEAR,
{
    match std::time::SystemTime::now().duration_since(std::time::UNIX_EPOCH) {
        Ok(since) => match chrono::DateTime::from_timestamp(
            since.as_secs() as i64,
            since.subsec_nanos(),
        ) {
            Some(now) => Some(chrono::Datelike::year(&now.naive_utc())),
            None => None,
        },
        Err(_) => None,
    }
}

/// Calls chrono's `Display` of `NaiveDate` on the date.
/// Claimed: ISO 8601 `%Y-%m-%d`, the year with four digits, or with a sign
/// and at least four digits outside 0 to 9999 (chrono's `Debug` of `NaiveDate`).
#[verifier::external_body]
fn chrono_date_display(year: i32, month: u32, day: u32) -> (s: String)
    requires
        valid_date(year as int, month as int, day as int),
    ensures
        s@ == iso_date_text((year as int, month as int, day as int)),
{
    chrono::NaiveDate::from_ymd_opt(year, month, day).unwrap().to_string()
}

/// Calls chrono's `NaiveDate::format` with `%d.%m`.
/// Claimed: day and month as two zero-padded digits each, with a dot between them.
#[verifier::external_body]
fn chrono_format_day_month(year: i32, month: u32, day: u32) -> (s: String)
    requires
        valid_date(year as int, month as int, day as int),
    ensures
        s@ == day_month_text((year as int, month as int, day as int)),
{
    chrono::NaiveDate::from_ymd_opt(year, month, day).unwrap().format("%d.%m").to_string()
}

impl Date {
    #[verifier::type_invariant]
    spec fn is_valid(self) -> bool {
        valid_date(self.year as int, self.month as int, self.day as int)
    }

    /// The date with the given year, month and day, where that is a day of the calendar.
    pub fn from_ymd(year: i32, month: u32, day: u32) -> (r: Option<Date>)
        ensures
            r is Some <==> valid_date(year as int, month as int, day as int),
            r matches Some(d) ==> d@ == (year as int, month as int, day as int),
    {
        if year < MIN_YEAR || year > MAX_YEAR || month < 1 || month > 12 || day < 1 {
            return None;
        }
        // The same remainders modulo 400 as `year`, on a number that is not negative.
        let shifted: u64 = (year as i64 + 400_000) as u64;
        let leap: bool = shifted % 4 == 0 && (shifted % 100 != 0 || shifted % 400 == 0);
        assert(leap == is_leap_year(year as int)) by {
            assert((year + 400000) % 4 == year % 4);
            assert((year + 400000) % 100 == year % 100);
            assert((year + 400000) % 400 == year % 400);
        }
        let last: u32 = if month == 2 {
            if leap {
                29
            } else {
                28
            }
        } else if month == 4 || month == 6 || month == 9 || month == 11 {
            30
        } else {
            31
        };
        if day > last {
            None
        } else {
            Some(Date { year, month, day })
        }
    }

    /// The year.
    pub fn year(&self) -> (r: i32)
        ensures
            r == self@.0,
    {
        self.year
    }

    /// The month, from 1 to 12.
    pub fn month(&self) -> (r: u32)
        ensures
            r == self@.1,
    {
        self.month
    }

    /// The day of the month, from 1.
    pub fn day(&self) -> (r: u32)
        ensures
            r == self@.2,
    {
        self.day
    }

    /// The date as ISO 8601 writes it, `year-month-day`.
    pub fn to_string(&self) -> (s: String)
        ensures
            s@ == iso_date_text(self@),
    {
        proof {
            use_type_invariant(self);
        }
        chrono_date_display(self.year, self.month, self.day)
    }

    /// The date as `day.month`.
    pub fn format_day_month(&self) -> (s: String)
        ensures
            s@ == day_month_text(self@),
    {
        proof {
            use_type_invariant(self);
        }
        chrono_format_day_month(self.year, self.month, self.day)
    }
}

/// The text that a `day.month` argument becomes once the year is added.
pub open spec fn dated_text(date: Seq<char>, year: int) -> Seq<char> {
    date + seq!['.'] + signed_decimal(year)
}

/// Whether `r` is what reading `date` as `day.month` of `year` gives.
pub open spec fn dated_in_year(date: Seq<char>, year: int, r: Result<Date, WeatherError>) -> bool {
    match chrono_dmy_date(dated_text(date, year)) {
        Some(t) => r matches Ok(d) && d@ == t,
        None => r matches Err(WeatherError::InvalidDate),
    }
}

/// Reads `date` as `day.month` of the given year. What [`Date::format_day_month`] writes
/// of a day in the years 1000 to 9999 is read back as that day.
pub fn parse_date_in_year(date: &str, year: i32) -> (r: Result<Date, WeatherError>)
    ensures
        dated_in_year(date@, year as int, r),
        forall|month: int, day: int|
            1000 <= year <= 9999 && valid_date(year as int, month, day) && date@
                == #[trigger] day_month_text((year as int, month, day)) ==> (r matches Ok(d)
                && d@ == (year as int, month, day)),
{
    let mut full_date = String::from_str(date);
    full_date.append(".");
    let year_digits = signed_decimal_text(year as i64);
    full_date.append(year_digits.as_str());
    proof {
        reveal_strlit(".");
        assert(full_date@ =~= dated_text(date@, year as int));
    }
    let text = full_date.as_str();
    let parsed = chrono_parse_dmy(text);
    proof {
        assert forall|month: int, day: int|
            1000 <= year <= 9999 && valid_date(year as int, month, day) && date@
                == #[trigger] day_month_text((year as int, month, day)) implies (parsed matches Ok(
            d,
        ) && d@ == (year as int, month, day)) by {
            lemma_four_digit_year(year as int);
            assert(text@ =~= dmy_text(year as int, month, day));
        }
    }
    match parsed {
        Ok(d) => Ok(d),
        Err(_) => Err(WeatherError::InvalidDate),
    }
}

/// Reads `date` as `day.month` of the current year (by the clock, in UTC). Where the
/// clock gives no date (it reads before 1970, or past chrono's dates), the error says so.
pub fn parse_date(date: &str) -> (r: Result<Date, WeatherError>)
    ensures
        (r matches Err(WeatherError::ClockError)) || exists|year: int|
            MIN_YEAR <= year <= MAX_YEAR && #[trigger] dated_in_year(date@, year, r),
{
    match chrono_current_year() {
        Some(year) => {
            let r = parse_date_in_year(date, year);
            assert(dated_in_year(date@, year as int, r));
            r
        },
        None => Err(WeatherError::ClockError),
    }
}

} // verus!
