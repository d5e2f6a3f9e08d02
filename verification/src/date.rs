//! The date codec: serial day numbers and calendar dates.
//!
//! A worksheet stores a date as a serial number: a count of days, with the
//! time of day as its fraction, from the start of the workbook's date
//! system. The 1900 system counts a 29 February 1900 that never was, as
//! serial 60; that day is refused here, and every later serial is moved back
//! one day so that it lands on the calendar date it was meant for.
//!
//! A serial is held at millisecond resolution, as whole days and the
//! milliseconds of its fraction. Calendar arithmetic is chrono's.

use vstd::prelude::*;
use chrono::{Datelike, Timelike};

verus! {

/// The milliseconds of one day.
pub const MILLIS_PER_DAY: i64 = 86_400_000;

/// How close to serial 60, in milliseconds, a serial of the 1900 system is
/// still taken for the day that never was: one ten-thousandth of a day.
pub const LEAP_BUG_TOLERANCE: i64 = 8_640;

/// The serial of the day that the 1900 system invented.
pub const LEAP_BUG_SERIAL: i64 = 60;

/// The least whole-day serial that is converted to a date.
pub const MIN_SERIAL_DAYS: i64 = -693_594;

/// The first year that chrono's calendar holds.
pub const MIN_YEAR: i32 = -262_143;

/// The last year that chrono's calendar holds.
pub const MAX_YEAR: i32 = 262_142;

/// Excel spreadsheets support two different date systems: the 1900 date
/// system and the 1904 date system. A date is the number of days that have
/// passed since the system's first day, so a number names a date only
/// together with the system of its workbook.
#[derive(Debug, Clone, Copy, PartialEq, Eq, Structural)]
pub enum DateSystem {
    V1900,
    V1904,
}

/// A calendar date of the proleptic Gregorian calendar.
#[derive(Debug, Clone, Copy, PartialEq, Eq, Structural)]
pub struct Date {
    pub year: i32,
    pub month: u32,
    pub day: u32,
}

/// A time of day, to the millisecond.
#[derive(Debug, Clone, Copy, PartialEq, Eq, Structural)]
pub struct Time {
    pub hour: u32,
    pub minute: u32,
    pub second: u32,
    pub milli: u32,
}

/// A calendar date together with a time of day.
#[derive(Debug, Clone, Copy, PartialEq, Eq, Structural)]
pub struct DateTime {
    pub date: Date,
    pub time: Time,
}

/// A serial number at millisecond resolution: `days` whole days and
/// `millis` milliseconds, which stand for the fraction of a day.
#[derive(Debug, Clone, Copy, PartialEq, Eq, Structural)]
pub struct Serial {
    pub days: i64,
    pub millis: i64,
}

/// Why a serial number names no instant.
#[derive(Debug, Clone, Copy, PartialEq, Eq, Structural)]
pub enum DateError {
    /// The serial is the 29 February 1900 of the 1900 system.
    InvalidDateSerial,
    /// The serial lies outside the calendar; the whole days of the serial
    /// are handed back in its place.
    NotADate(i64),
}

/// What a serial number turns out to be.
#[derive(Debug, Clone, Copy, PartialEq, Eq, Structural)]
pub enum DateConversion {
    /// A day with no time of day.
    Date(Date),
    /// A day and a time of day.
    DateTime(DateTime),
    /// A time of day alone: the serial had no whole days.
    Time(Time),
    /// No date at all: the whole days of a serial outside the calendar.
    Number(i64),
}

pub open spec fn is_leap_year(year: int) -> bool {
    year % 4 == 0 && (year % 100 != 0 || year % 400 == 0)
}

pub open spec fn days_in_month(year: int, month: int) -> int {
    if month == 2 {
        if is_leap_year(year) {
            29
        } else {
            28
        }
    } else if month == 4 || month == 6 || month == 9 || month == 11 {
        30
    } else {
        31
    }
}

/// The days of `year` that lie before the first of `month`.
pub open spec fn days_before_month(year: int, month: int) -> int {
    let leap: int = if is_leap_year(year) && month > 2 {
        1
    } else {
        0
    };
    leap + if month <= 1 {
        0int
    } else if month == 2 {
        31
    } else if month == 3 {
        59
    } else if month == 4 {
        90
    } else if month == 5 {
        120
    } else if month == 6 {
        151
    } else if month == 7 {
        181
    } else if month == 8 {
        212
    } else if month == 9 {
        243
    } else if month == 10 {
        273
    } else if month == 11 {
        304
    } else {
        334
    }
}

/// The days of the calendar that lie before 1 January of `year`, counted
/// from 1 January of year 1.
pub open spec fn days_before_year(year: int) -> int {
    let y = year - 1;
    365 * y + y / 4 - y / 100 + y / 400
}

/// The number of a day in the proleptic Gregorian calendar, with 1 January
/// of year 1 as day 1.
pub open spec fn days_from_ce(year: int, month: int, day: int) -> int {
    days_before_year(year) + days_before_month(year, month) + day
}

impl Date {
    /// Whether this is a day of the calendar, within the years that chrono
    /// holds.
    pub open spec fn valid(self) -> bool {
        &&& MIN_YEAR <= self.year <= MAX_YEAR
        &&& 1 <= self.month <= 12
        &&& 1 <= self.day <= days_in_month(self.year as int, self.month as int)
    }

    /// The number of this day, with 1 January of year 1 as day 1.
    pub open spec fn day_number(self) -> int {
        days_from_ce(self.year as int, self.month as int, self.day as int)
    }
}

impl Time {
    /// Whether this is a time of day. A leap second is none.
    pub open spec fn valid(self) -> bool {
        self.hour < 24 && self.minute < 60 && self.second < 60 && self.milli < 1000
    }

    /// Whether this is a time of day.
    pub fn is_valid(&self) -> (r: bool)
        ensures
            r == self.valid(),
    {
        self.hour < 24 && self.minute < 60 && self.second < 60 && self.milli < 1000
    }

    /// The milliseconds since midnight.
    pub open spec fn millis_of_day(self) -> int {
        ((self.hour * 60 + self.minute) * 60 + self.second) * 1000 + self.milli
    }

    pub open spec fn is_midnight(self) -> bool {
        self.hour == 0 && self.minute == 0 && self.second == 0 && self.milli == 0
    }
}

impl DateTime {
    pub open spec fn valid(self) -> bool {
        self.date.valid() && self.time.valid()
    }

    /// The place of this instant on the line of time: the milliseconds
    /// since the midnight with which day 0 of the calendar began.
    pub open spec fn instant(self) -> int {
        self.date.day_number() * MILLIS_PER_DAY + self.time.millis_of_day()
    }
}

/// The first instant that chrono's calendar holds.
pub open spec fn min_instant() -> int {
    days_from_ce(MIN_YEAR as int, 1, 1) * MILLIS_PER_DAY
}

/// The last instant that chrono's calendar holds, at this resolution.
pub open spec fn max_instant() -> int {
    days_from_ce(MAX_YEAR as int, 12, 31) * MILLIS_PER_DAY + MILLIS_PER_DAY - 1
}

/// Whether the calendar holds the instant `t`.
pub open spec fn in_calendar(t: int) -> bool {
    min_instant() <= t <= max_instant()
}

/// chrono's `NaiveDateTime::checked_add_signed`, with the step made by
/// `TimeDelta::try_milliseconds`: the instant `millis` milliseconds after
/// `start`. It is a calendar instant exactly that far from `start`; there is
/// none where `start` is no day of the calendar or the sum leaves chrono's
/// calendar. The time of `start` is a time of day: chrono would take some
/// other times for leap seconds.
#[verifier::external_body]
fn instant_plus(start: &DateTime, millis: i64) -> (r: Option<DateTime>)
    requires
        start.time.valid(),
    ensures
        match r {
            Some(end) => start.valid() && end.valid() && end.instant() == start.instant() + millis,
            None => !(start.valid() && in_calendar(start.instant() + millis)),
        },
        r is None <==> !(start.valid() && in_calendar(start.instant() + millis)),
{
    let d = chrono::NaiveDate::from_ymd_opt(start.date.year, start.date.month, start.date.day)?;
    let t = &start.time;
    let from = d.and_hms_milli_opt(t.hour, t.minute, t.second, t.milli)?;
    let to = from.checked_add_signed(chrono::TimeDelta::try_milliseconds(millis)?)?;
    Some(DateTime {
        date: Date { year: to.year(), month: to.month(), day: to.day() },
        time: Time {
            hour: to.hour(),
            minute: to.minute(),
            second: to.second(),
            milli: to.and_utc().timestamp_subsec_millis(),
        },
    })
}

/// chrono's `NaiveDateTime::signed_duration_since`, read with
/// `TimeDelta::num_milliseconds`: the milliseconds from `earlier` to `later`,
/// negative where `later` comes first. There is no answer where one of the
/// two is no day of the calendar. The times of both are times of day: chrono
/// would take some other times for leap seconds.
#[verifier::external_body]
fn millis_between(later: &DateTime, earlier: &DateTime) -> (r: Option<i64>)
    requires
        later.time.valid(),
        earlier.time.valid(),
    ensures
        match r {
            Some(span) => later.valid() && earlier.valid() && span == later.instant()
                - earlier.instant(),
            None => !(later.valid() && earlier.valid()),
        },
{
    let (d, t) = (&later.date, &later.time);
    let to = chrono::NaiveDate::from_ymd_opt(d.year, d.month, d.day)?;
    let to = to.and_hms_milli_opt(t.hour, t.minute, t.second, t.milli)?;
    let (d, t) = (&earlier.date, &earlier.time);
    let from = chrono::NaiveDate::from_ymd_opt(d.year, d.month, d.day)?;
    let from = from.and_hms_milli_opt(t.hour, t.minute, t.second, t.milli)?;
    Some(to.signed_duration_since(from).num_milliseconds())
}

impl DateSystem {
    /// The instant from which the system counts: the midnight before
    /// 1 January 1900, so that serial 1 is that day, or the midnight with
    /// which 1 January 1904 began, which is serial 0.
    pub open spec fn base_spec(self) -> DateTime {
        match self {
            DateSystem::V1900 => DateTime {
                date: Date { year: 1899, month: 12, day: 31 },
                time: Time { hour: 0, minute: 0, second: 0, milli: 0 },
            },
            DateSystem::V1904 => DateTime {
                date: Date { year: 1904, month: 1, day: 1 },
                time: Time { hour: 0, minute: 0, second: 0, milli: 0 },
            },
        }
    }

    /// The instant from which the system counts.
    pub fn base(&self) -> (r: DateTime)
        ensures
            r == self.base_spec(),
            r.valid(),
    {
        let time = Time { hour: 0, minute: 0, second: 0, milli: 0 };
        match self {
            DateSystem::V1900 => DateTime { date: Date { year: 1899, month: 12, day: 31 }, time },
            DateSystem::V1904 => DateTime { date: Date { year: 1904, month: 1, day: 1 }, time },
        }
    }
}

impl Serial {
    /// The serial as one count of milliseconds.
    pub open spec fn total_millis(self) -> int {
        self.days * MILLIS_PER_DAY + self.millis
    }

    /// Whether the serial, in `system`, is the 29 February 1900 that the
    /// 1900 system invented: within the tolerance of serial 60.
    pub open spec fn hits_leap_bug(self, system: DateSystem) -> bool {
        &&& system == DateSystem::V1900
        &&& -LEAP_BUG_TOLERANCE < self.total_millis() - LEAP_BUG_SERIAL * MILLIS_PER_DAY
            < LEAP_BUG_TOLERANCE
    }

    /// Whether the serial comes after the invented day, so that it counts one
    /// day too many.
    pub open spec fn after_leap_bug(self, system: DateSystem) -> bool {
        system == DateSystem::V1900 && self.total_millis() > LEAP_BUG_SERIAL * MILLIS_PER_DAY
    }

    /// The instant that the serial names in `system`: the base of the
    /// system, one day earlier for a serial after the invented day, plus
    /// the days and milliseconds of the serial.
    pub open spec fn instant(self, system: DateSystem) -> int {
        system.base_spec().instant() - (if self.after_leap_bug(system) {
            MILLIS_PER_DAY as int
        } else {
            0
        }) + self.total_millis()
    }

    /// Whether the serial names an instant of the calendar.
    pub open spec fn is_date(self, system: DateSystem) -> bool {
        &&& !self.hits_leap_bug(system)
        &&& self.days >= MIN_SERIAL_DAYS
        &&& in_calendar(self.instant(system))
    }
}

/// The calendar instant at the place `t` on the line of time. There is one,
/// and only one, where `in_calendar(t)`.
pub open spec fn instant_datetime(t: int) -> DateTime {
    choose|at: DateTime| at.valid() && at.instant() == t
}

/// What `excel_number_to_date` answers.
pub open spec fn excel_number_to_date_spec(number: Serial, system: DateSystem) -> Result<
    DateTime,
    DateError,
> {
    if number.hits_leap_bug(system) {
        Err(DateError::InvalidDateSerial)
    } else if !number.is_date(system) {
        Err(DateError::NotADate(number.days))
    } else {
        Ok(instant_datetime(number.instant(system)))
    }
}

/// Return the instant of `number` in the date system provided.
///
/// Serial 60 of the 1900 system, give or take the tolerance, is refused
/// with `InvalidDateSerial`. A serial with fewer whole days than
/// `MIN_SERIAL_DAYS`, or whose instant chrono's calendar does not hold, is
/// no date: its whole days come back in `NotADate`.
pub fn excel_number_to_date(number: &Serial, date_system: &DateSystem) -> (r: Result<
    DateTime,
    DateError,
>)
    ensures
        r == excel_number_to_date_spec(*number, *date_system),
        r matches Ok(at) ==> at.valid() && at.instant() == number.instant(*date_system),
{
    let total: i128 = (number.days as i128) * 86_400_000 + (number.millis as i128);
    let sixty: i128 = 60 * 86_400_000;
    let mut step: i128 = total;
    match date_system {
        DateSystem::V1900 => {
            if total - sixty < 8_640 && sixty - total < 8_640 {
                return Err(DateError::InvalidDateSerial);
            } else if total > sixty {
                step = total - 86_400_000;
            }
        },
        DateSystem::V1904 => {},
    }
    if number.days < MIN_SERIAL_DAYS {
        return Err(DateError::NotADate(number.days));
    }
    let base = date_system.base();
    if step < (i64::MIN as i128) || step > (i64::MAX as i128) {
        return Err(DateError::NotADate(number.days));
    }
    match instant_plus(&base, step as i64) {
        Some(at) => {
            proof {
                lemma_instant_names_one(at, instant_datetime(number.instant(*date_system)));
            }
            Ok(at)
        },
        None => Err(DateError::NotADate(number.days)),
    }
}

/// An instant that a serial of `days` whole days named, sorted: a time of
/// day alone where the serial has no whole days, else a day alone where the
/// instant is a midnight, else a day and a time.
pub open spec fn classify_instant_spec(days: i64, at: DateTime) -> DateConversion {
    if days == 0 {
        DateConversion::Time(at.time)
    } else if at.time.is_midnight() {
        DateConversion::Date(at.date)
    } else {
        DateConversion::DateTime(at)
    }
}

/// What `serial_to_datetime` answers: the sorted instant of the serial,
/// or the whole days of a serial that is no date.
pub open spec fn serial_to_datetime_spec(number: Serial, system: DateSystem) -> Result<
    DateConversion,
    DateError,
> {
    match excel_number_to_date_spec(number, system) {
        Ok(at) => Ok(classify_instant_spec(number.days, at)),
        Err(DateError::NotADate(days)) => Ok(DateConversion::Number(days)),
        Err(DateError::InvalidDateSerial) => Err(DateError::InvalidDateSerial),
    }
}

/// Sorts the instant `at`, which a serial of `days` whole days named, into
/// a time of day, a day, or both.
pub fn classify_instant(days: i64, at: DateTime) -> (r: DateConversion)
    ensures
        r == classify_instant_spec(days, at),
{
    if days == 0 {
        DateConversion::Time(at.time)
    } else if at.time.hour == 0 && at.time.minute == 0 && at.time.second == 0 && at.time.milli
        == 0 {
        DateConversion::Date(at.date)
    } else {
        DateConversion::DateTime(at)
    }
}

/// Converts the serial `number` of the date system provided into a time of
/// day, a day, or a day and time; or into the number of its whole days where
/// it is no date. Serial 60 of the 1900 system is refused.
pub fn serial_to_datetime(number: &Serial, date_system: &DateSystem) -> (r: Result<
    DateConversion,
    DateError,
>)
    ensures
        r == serial_to_datetime_spec(*number, *date_system),
{
    match excel_number_to_date(number, date_system) {
        Ok(at) => Ok(classify_instant(number.days, at)),
        Err(DateError::NotADate(days)) => Ok(DateConversion::Number(days)),
        Err(DateError::InvalidDateSerial) => Err(DateError::InvalidDateSerial),
    }
}

/// What can be read as an instant: a day and time, a day (its midnight), or
/// a time of day (on the base day of the 1900 system, without its
/// milliseconds).
pub trait ToDateTime {
    /// The instant that `self` is read as.
    spec fn datetime_spec(&self) -> DateTime;

    fn to_datetime(&self) -> (r: DateTime)
        ensures
            r == self.datetime_spec(),
    ;
}

impl ToDateTime for &DateTime {
    open spec fn datetime_spec(&self) -> DateTime {
        **self
    }

    fn to_datetime(&self) -> (r: DateTime) {
        **self
    }
}

impl ToDateTime for &Date {
    open spec fn datetime_spec(&self) -> DateTime {
        DateTime { date: **self, time: Time { hour: 0, minute: 0, second: 0, milli: 0 } }
    }

    fn to_datetime(&self) -> (r: DateTime) {
        DateTime { date: **self, time: Time { hour: 0, minute: 0, second: 0, milli: 0 } }
    }
}

impl ToDateTime for &Time {
    open spec fn datetime_spec(&self) -> DateTime {
        DateTime {
            date: DateSystem::V1900.base_spec().date,
            time: Time { hour: self.hour, minute: self.minute, second: self.second, milli: 0 },
        }
    }

    fn to_datetime(&self) -> (r: DateTime) {
        DateTime {
            date: DateSystem::V1900.base().date,
            time: Time { hour: self.hour, minute: self.minute, second: self.second, milli: 0 },
        }
    }
}

/// The whole days in a span of `millis` milliseconds, counted towards zero.
pub open spec fn whole_days(millis: int) -> int {
    if millis >= 0 {
        millis / (MILLIS_PER_DAY as int)
    } else {
        -((-millis) / (MILLIS_PER_DAY as int))
    }
}

/// The serial that names the instant `at` in `system`: the time from the
/// base of the system to `at`, in whole days and the milliseconds left over,
/// with one day more in the 1900 system from the sixtieth day on.
pub open spec fn serial_of_instant(at: int, system: DateSystem) -> Serial {
    let span = at - system.base_spec().instant();
    let days = whole_days(span);
    let extra: int = if system == DateSystem::V1900 && days >= LEAP_BUG_SERIAL {
        1
    } else {
        0
    };
    Serial { days: (days + extra) as i64, millis: (span - days * MILLIS_PER_DAY) as i64 }
}

/// Return the serial number of `date` in the date system provided. There
/// is none where `date` is no instant of the calendar.
pub fn date_to_excel_number<T: ToDateTime>(date: T, date_system: &DateSystem) -> (r: Option<Serial>)
    ensures
        r == if date.datetime_spec().valid() {
            Some(serial_of_instant(date.datetime_spec().instant(), *date_system))
        } else {
            None
        },
{
    let at = date.to_datetime();
    let base = date_system.base();
    if !at.time.is_valid() {
        return None;
    }
    match millis_between(&at, &base) {
        Some(span) => {
            let days: i64 = span / 86_400_000;
            let rest: i64 = span - days * 86_400_000;
            let extra: i64 = match date_system {
                DateSystem::V1900 => if days >= 60 {
                    1
                } else {
                    0
                },
                DateSystem::V1904 => 0,
            };
            Some(Serial { days: days + extra, millis: rest })
        },
        None => None,
    }
}

/// A year has 365 days, and one more where it is a leap year.
pub proof fn lemma_year_length(year: int)
    ensures
        days_before_year(year + 1) - days_before_year(year) == if is_leap_year(year) {
            366int
        } else {
            365
        },
{
}

/// A later year begins on a later day.
pub proof fn lemma_years_in_order(first: int, second: int)
    requires
        first <= second,
    ensures
        days_before_year(first) <= days_before_year(second),
    decreases second - first,
{
    if first < second {
        lemma_year_length(second - 1);
        lemma_years_in_order(first, second - 1);
    }
}

/// The day numbers of the calendar keep the order of its dates, so no two
/// dates share a number.
pub proof fn lemma_day_number_orders(a: Date, b: Date)
    requires
        a.valid(),
        b.valid(),
    ensures
        a.day_number() < b.day_number() <==> (a.year < b.year || (a.year == b.year && (a.month
            < b.month || (a.month == b.month && a.day < b.day)))),
        a.day_number() == b.day_number() <==> a == b,
{
    if a.year < b.year {
        lemma_year_length(a.year as int);
        lemma_years_in_order(a.year + 1, b.year as int);
    } else if b.year < a.year {
        lemma_year_length(b.year as int);
        lemma_years_in_order(b.year + 1, a.year as int);
    }
}

/// No two instants of the calendar share a place on the line of time: a
/// valid day and time is known by its instant.
pub proof fn lemma_instant_names_one(a: DateTime, b: DateTime)
    requires
        a.valid(),
        b.valid(),
        a.instant() == b.instant(),
    ensures
        a == b,
{
    let ma = a.time.millis_of_day();
    let mb = b.time.millis_of_day();
    let da = a.date.day_number();
    let db = b.date.day_number();
    assert(0 <= ma < MILLIS_PER_DAY && 0 <= mb < MILLIS_PER_DAY);
    assert(da == db && ma == mb) by (nonlinear_arith)
        requires
            da * MILLIS_PER_DAY + ma == db * MILLIS_PER_DAY + mb,
            0 <= ma < MILLIS_PER_DAY,
            0 <= mb < MILLIS_PER_DAY,
    ;
    lemma_day_number_orders(a.date, b.date);
}

/// Reading back the serial of the instant that a serial named gives the
/// serial again, to the millisecond.
///
/// This holds of every serial that names a date but for those of the 1900
/// system that lie on the invented day past the tolerance, after serial 60
/// and before serial 61: they name instants of 28 February 1900, which read
/// back as serials of that day.
pub proof fn lemma_serial_round_trip(number: Serial, system: DateSystem, at: DateTime)
    requires
        number.is_date(system),
        at.valid(),
        at.instant() == number.instant(system),
        !(system == DateSystem::V1900 && LEAP_BUG_SERIAL * MILLIS_PER_DAY < number.total_millis() < (
        LEAP_BUG_SERIAL + 1) * MILLIS_PER_DAY),
    ensures
        serial_of_instant(at.instant(), system).total_millis() == number.total_millis(),
{
    let span = at.instant() - system.base_spec().instant();
    let days = whole_days(span);
    assert(in_calendar(at.instant()));
    if span >= 0 {
        assert(0 <= span - days * MILLIS_PER_DAY < MILLIS_PER_DAY && (span >= 60 * MILLIS_PER_DAY
            <==> days >= 60)) by (nonlinear_arith)
            requires
                span >= 0,
                days == span / (MILLIS_PER_DAY as int),
                MILLIS_PER_DAY == 86_400_000,
        ;
    } else {
        assert(-MILLIS_PER_DAY < span - days * MILLIS_PER_DAY <= 0 && days <= 0) by (nonlinear_arith)
            requires
                span < 0,
                days == -((-span) / (MILLIS_PER_DAY as int)),
                MILLIS_PER_DAY == 86_400_000,
        ;
    }
}

} // verus!
