//! Calendar arithmetic and trading-session gating.
//!
//! Dates are proleptic Gregorian, as chrono counts them. Instants are
//! milliseconds since the Unix epoch; the market's local time is US Eastern.
use vstd::prelude::*;
use chrono::{Datelike, Timelike};
use crate::Timestamp;
use crate::util::divrem;

verus! {

/// Earliest year that chrono's `NaiveDate` represents.
pub const MIN_YEAR: i32 = -262143;

/// Latest year that chrono's `NaiveDate` represents.
pub const MAX_YEAR: i32 = 262142;

/// A calendar date: year, month (1 to 12) and day of month (from 1).
#[derive(Debug, Clone, Copy, PartialEq, Eq, Structural)]
pub struct CivilDate {
    pub year: i32,
    pub month: u32,
    pub day: u32,
}

/// The calendar fields of an instant in some time zone.
#[derive(Debug, Clone, Copy, PartialEq, Eq, Structural)]
pub struct DateTimeFields {
    pub date: CivilDate,
    pub hour: u32,
    pub minute: u32,
    pub second: u32,
    pub millisecond: u32,
    /// Days since the last Monday: 0 for Monday up to 6 for Sunday.
    pub weekday: u32,
}

pub open spec fn is_leap_year(y: int) -> bool {
    y % 4 == 0 && (y % 100 != 0 || y % 400 == 0)
}

/// Number of days in month `m` of year `y`.
pub open spec fn month_length(y: int, m: int) -> int {
    if m == 2 {
        if is_leap_year(y) { 29 } else { 28 }
    } else if m == 4 || m == 6 || m == 9 || m == 11 {
        30
    } else {
        31
    }
}

/// Days in year `y` before the first of month `m`.
pub open spec fn days_before_month(y: int, m: int) -> int
    decreases m,
{
    if m <= 1 {
        0
    } else {
        days_before_month(y, m - 1) + month_length(y, m - 1)
    }
}

/// Days from 1 January of year 1 to 1 January of year `y`.
pub open spec fn days_before_year(y: int) -> int {
    365 * (y - 1) + (y - 1) / 4 - (y - 1) / 100 + (y - 1) / 400
}

/// The date's day count, with 1 January of year 1 (a Monday) as day 0.
pub open spec fn day_number(d: CivilDate) -> int {
    days_before_year(d.year as int) + days_before_month(d.year as int, d.month as int) + d.day - 1
}

impl CivilDate {
    /// A real date within chrono's range.
    pub open spec fn is_valid(self) -> bool {
        &&& MIN_YEAR <= self.year <= MAX_YEAR
        &&& 1 <= self.month <= 12
        &&& 1 <= self.day <= month_length(self.year as int, self.month as int)
    }
}

/// Relies on chrono's `NaiveDate::from_ymd_opt` and `NaiveDate::signed_duration_since`:
/// the whole days from `earlier` to `later`.
#[verifier::external_body]
fn days_since(later: CivilDate, earlier: CivilDate) -> (r: i64)
    requires
        later.is_valid(),
        earlier.is_valid(),
    ensures
        r == day_number(later) - day_number(earlier),
{
    let a = chrono::NaiveDate::from_ymd_opt(later.year, later.month, later.day).unwrap();
    let b = chrono::NaiveDate::from_ymd_opt(earlier.year, earlier.month, earlier.day).unwrap();
    a.signed_duration_since(b).num_days()
}

proof fn lemma_div_step(y: int, n: int)
    requires
        n > 0,
    ensures
        y / n - (y - 1) / n == (if y % n == 0 { 1int } else { 0int }),
{
    vstd::arithmetic::div_mod::lemma_fundamental_div_mod(y, n);
    vstd::arithmetic::div_mod::lemma_fundamental_div_mod(y - 1, n);
    let q1 = y / n;
    let r1 = y % n;
    let q2 = (y - 1) / n;
    let r2 = (y - 1) % n;
    assert(0 <= r1 < n && 0 <= r2 < n);
    if r1 == 0 {
        assert(q2 == q1 - 1) by (nonlinear_arith)
            requires y == n * q1 + r1, y - 1 == n * q2 + r2, r1 == 0, 0 <= r2 < n, n > 0;
    } else {
        assert(q2 == q1) by (nonlinear_arith)
            requires y == n * q1 + r1, y - 1 == n * q2 + r2, 0 < r1 < n, 0 <= r2 < n, n > 0;
    }
}

/// A year has 366 days when it is a leap year and 365 otherwise.
pub proof fn lemma_year_length(y: int)
    ensures
        days_before_year(y + 1) - days_before_year(y) == (if is_leap_year(y) { 366int } else { 365int }),
{
    lemma_div_step(y, 4);
    lemma_div_step(y, 100);
    lemma_div_step(y, 400);
    if y % 400 == 0 {
        vstd::arithmetic::div_mod::lemma_fundamental_div_mod(y, 400);
        let k = y / 400;
        assert(y == 100 * (4 * k));
        vstd::arithmetic::div_mod::lemma_mod_multiples_basic(4 * k, 100);
        assert(y == 4 * (100 * k));
        vstd::arithmetic::div_mod::lemma_mod_multiples_basic(100 * k, 4);
    } else if y % 100 == 0 {
        vstd::arithmetic::div_mod::lemma_fundamental_div_mod(y, 100);
        let k = y / 100;
        assert(y == 4 * (25 * k));
        vstd::arithmetic::div_mod::lemma_mod_multiples_basic(25 * k, 4);
    }
}

/// The twelve months of a year add up to the year's length.
pub proof fn lemma_days_before_month_end(y: int)
    ensures
        days_before_month(y, 13) == (if is_leap_year(y) { 366int } else { 365int }),
{
    reveal_with_fuel(days_before_month, 13);
}

/// Whole days from the first of month `m1` to the first of month `m2` of the same year.
proof fn lemma_first_days_same_year(y: i32, m1: u32, m2: u32)
    ensures
        day_number(CivilDate { year: y, month: m2, day: 1 }) - day_number(CivilDate { year: y, month: m1, day: 1 })
            == days_before_month(y as int, m2 as int) - days_before_month(y as int, m1 as int),
{
}

/// Whole days from the first of month `m` to the first of January of the next year.
proof fn lemma_first_days_next_year(y: i32, m: u32)
    requires
        y < MAX_YEAR,
    ensures
        day_number(CivilDate { year: (y + 1) as i32, month: 1, day: 1 }) - day_number(CivilDate { year: y, month: m, day: 1 })
            == days_before_month(y as int, 13) - days_before_month(y as int, m as int),
{
    lemma_year_length(y as int);
    lemma_days_before_month_end(y as int);
}

/// Number of days in the month, as chrono counts from its first day to the next month's.
pub fn num_days_in_month(year: i32, month: u32) -> (r: i64)
    requires
        MIN_YEAR <= year <= MAX_YEAR,
        1 <= month <= 12,
        year < MAX_YEAR || month < 12,
    ensures
        r == month_length(year as int, month as int),
{
    let (next_year, next_month) = if month == 12 { (year + 1, 1u32) } else { (year, month + 1) };
    let first = CivilDate { year, month, day: 1 };
    let first_of_next = CivilDate { year: next_year, month: next_month, day: 1 };
    proof {
        if month == 12 {
            lemma_first_days_next_year(year, month);
            reveal_with_fuel(days_before_month, 2);
        } else {
            lemma_first_days_same_year(year, month, next_month);
        }
    }
    days_since(first_of_next, first)
}

/// First month (1, 4, 7 or 10) of the quarter that holds month `m`.
pub open spec fn quarter_start_month(m: int) -> int {
    ((m - 1) / 3) * 3 + 1
}

/// First month of the quarter that holds `month`.
pub fn first_month_in_quarter(month: u32) -> (r: u32)
    requires
        1 <= month <= 12,
    ensures
        r == quarter_start_month(month as int),
        r == 1 || r == 4 || r == 7 || r == 10,
        r <= month < r + 3,
{
    (month - 1) / 3 * 3 + 1
}

/// The first day of the date's quarter.
pub open spec fn quarter_start(d: CivilDate) -> CivilDate {
    CivilDate { year: d.year, month: quarter_start_month(d.month as int) as u32, day: 1 }
}

/// Number of days in the quarter that starts with month `qm` of year `y`.
pub open spec fn quarter_length(y: int, qm: int) -> int {
    month_length(y, qm) + month_length(y, qm + 1) + month_length(y, qm + 2)
}

/// The first day of the date's quarter; quarters begin in January, April, July and October.
pub fn first_day_of_quarter(date: CivilDate) -> (r: CivilDate)
    requires
        date.is_valid(),
    ensures
        r == quarter_start(date),
        r.is_valid(),
{
    CivilDate { year: date.year, month: first_month_in_quarter(date.month), day: 1 }
}

/// Days from the first day of the date's quarter to the date.
pub fn day_of_quarter(date: CivilDate) -> (r: i64)
    requires
        date.is_valid(),
    ensures
        r == day_number(date) - day_number(quarter_start(date)),
        r == days_before_month(date.year as int, date.month as int)
            - days_before_month(date.year as int, quarter_start_month(date.month as int)) + date.day - 1,
{
    days_since(date, first_day_of_quarter(date))
}

/// Number of days in the date's quarter, as chrono counts from its first day to the next quarter's.
pub fn num_days_in_quarter(date: CivilDate) -> (r: i64)
    requires
        date.is_valid(),
        date.year < MAX_YEAR || date.month < 10,
    ensures
        r == quarter_length(date.year as int, quarter_start_month(date.month as int)),
{
    let first_of_quarter = first_day_of_quarter(date);
    let from_month = first_of_quarter.month;
    let (add_to_year, next_quarter_month_minus_one) = divrem(from_month - 1 + 3, 12);
    let to_year = first_of_quarter.year + add_to_year as i32;
    let first_of_next_quarter = CivilDate { year: to_year, month: next_quarter_month_minus_one + 1, day: 1 };
    proof {
        reveal_with_fuel(days_before_month, 13);
        if from_month == 10 {
            lemma_first_days_next_year(date.year, from_month);
        } else {
            lemma_first_days_same_year(date.year, from_month, (from_month + 3) as u32);
        }
    }
    days_since(first_of_next_quarter, first_of_quarter)
}

/// The first day of each quarter is day 0 of that quarter.
pub proof fn lemma_quarter_start_is_day_zero(d: CivilDate)
    requires
        d.is_valid(),
        d.day == 1,
        d.month == 1 || d.month == 4 || d.month == 7 || d.month == 10,
    ensures
        quarter_start(d) == d,
        day_number(d) - day_number(quarter_start(d)) == 0,
{
}

/// A quarter's length is the sum of its three months: 90 or 91 days for the first quarter,
/// 91 for the second, 92 for the third and fourth.
pub proof fn lemma_quarter_lengths(y: int)
    ensures
        quarter_length(y, 1) == (if is_leap_year(y) { 91int } else { 90int }),
        quarter_length(y, 4) == 91,
        quarter_length(y, 7) == 92,
        quarter_length(y, 10) == 92,
        quarter_length(y, 1) == days_before_month(y, 4),
        quarter_length(y, 4) == days_before_month(y, 7) - days_before_month(y, 4),
        quarter_length(y, 7) == days_before_month(y, 10) - days_before_month(y, 7),
        quarter_length(y, 10) == days_before_month(y, 13) - days_before_month(y, 10),
{
    reveal_with_fuel(days_before_month, 13);
}

/// Milliseconds in one day.
pub const MILLIS_PER_DAY: i64 = 86_400_000;

/// The day number of 1 January 1970.
pub const UNIX_EPOCH_DAY_NUMBER: i64 = 719_162;

/// The day number of the instant's UTC date.
pub open spec fn utc_day_number(millis: int) -> int {
    millis / (MILLIS_PER_DAY as int) + UNIX_EPOCH_DAY_NUMBER
}

/// The instant's UTC date lies within chrono's range.
pub open spec fn in_date_range(millis: int) -> bool {
    day_number(CivilDate { year: MIN_YEAR, month: 1, day: 1 }) <= utc_day_number(millis)
        <= day_number(CivilDate { year: MAX_YEAR, month: 12, day: 31 })
}

/// `f` holds the UTC calendar fields of the instant `millis`.
pub open spec fn is_utc_fields_of(f: DateTimeFields, millis: int) -> bool {
    &&& f.date.is_valid()
    &&& day_number(f.date) == utc_day_number(millis)
    &&& f.hour < 24 && f.minute < 60 && f.second < 60
    &&& f.hour * 3600 + f.minute * 60 + f.second == (millis % (MILLIS_PER_DAY as int)) / 1000
    &&& f.millisecond == millis % 1000
    &&& f.weekday == day_number(f.date) % 7
}

/// The market's local calendar fields of an instant, as chrono-tz gives them for US
/// Eastern time; `None` where the instant lies outside chrono's range.
pub uninterp spec fn market_local_of(millis: int) -> Option<DateTimeFields>;

/// Relies on chrono's `DateTime::<Utc>::from_timestamp_millis` and its calendar fields.
#[verifier::external_body]
fn utc_fields(millis: i64) -> (r: Option<DateTimeFields>)
    ensures
        r is Some <==> in_date_range(millis as int),
        r matches Some(f) ==> is_utc_fields_of(f, millis as int),
{
    match chrono::DateTime::from_timestamp_millis(millis) {
        Some(dt) => Some(DateTimeFields {
            date: CivilDate { year: dt.year(), month: dt.month(), day: dt.day() },
            hour: dt.hour(),
            minute: dt.minute(),
            second: dt.second(),
            millisecond: dt.timestamp_subsec_millis(),
            weekday: dt.weekday().num_days_from_monday(),
        }),
        None => None,
    }
}

/// Relies on chrono's `DateTime::from_timestamp_millis` and chrono-tz's
/// `US::Eastern` zone for the local calendar fields.
#[verifier::external_body]
fn market_fields(millis: i64) -> (r: Option<DateTimeFields>)
    ensures
        r == market_local_of(millis as int),
        r is Some <==> in_date_range(millis as int),
{
    match chrono::DateTime::from_timestamp_millis(millis) {
        Some(utc) => {
            let dt = utc.with_timezone(&chrono_tz::US::Eastern);
            Some(DateTimeFields {
                date: CivilDate { year: dt.year(), month: dt.month(), day: dt.day() },
                hour: dt.hour(),
                minute: dt.minute(),
                second: dt.second(),
                millisecond: dt.timestamp_subsec_millis(),
                weekday: dt.weekday().num_days_from_monday(),
            })
        },
        None => None,
    }
}

/// The UTC instant, in milliseconds since the Unix epoch, that the fields name.
pub open spec fn timestamp_of_fields(f: DateTimeFields) -> int {
    (day_number(f.date) - UNIX_EPOCH_DAY_NUMBER) * MILLIS_PER_DAY
        + (f.hour * 3600 + f.minute * 60 + f.second) * 1000 + f.millisecond
}

/// Fields of a real UTC instant within chrono's range.
pub open spec fn is_valid_fields(f: DateTimeFields) -> bool {
    &&& f.date.is_valid()
    &&& f.hour < 24 && f.minute < 60 && f.second < 60 && f.millisecond < 1000
}

/// Relies on chrono's `NaiveDate::and_hms_milli_opt` and `DateTime::timestamp_millis`:
/// the milliseconds since the Unix epoch of a UTC date and time.
#[verifier::external_body]
fn utc_timestamp_millis(t: &DateTimeFields) -> (r: i64)
    requires
        is_valid_fields(*t),
    ensures
        r == timestamp_of_fields(*t),
{
    let date = chrono::NaiveDate::from_ymd_opt(t.date.year, t.date.month, t.date.day).unwrap();
    let dt = date.and_hms_milli_opt(t.hour, t.minute, t.second, t.millisecond).unwrap();
    dt.and_utc().timestamp_millis()
}

/// Milliseconds since the Unix epoch of UTC calendar fields.
pub fn serialize_timestamp(timestamp: &DateTimeFields) -> (r: Timestamp)
    requires
        is_valid_fields(*timestamp),
    ensures
        r == timestamp_of_fields(*timestamp),
{
    utc_timestamp_millis(timestamp)
}

/// Reading the UTC fields of an instant and turning them back into milliseconds gives
/// the instant.
pub proof fn lemma_timestamp_round_trip(f: DateTimeFields, millis: int)
    requires
        is_utc_fields_of(f, millis),
    ensures
        is_valid_fields(f),
        timestamp_of_fields(f) == millis,
{
    let d = MILLIS_PER_DAY as int;
    vstd::arithmetic::div_mod::lemma_fundamental_div_mod(millis, d);
    let r = millis % d;
    vstd::arithmetic::div_mod::lemma_fundamental_div_mod(r, 1000);
    vstd::arithmetic::div_mod::lemma_mod_mod(millis, 1000, 86_400);
    assert(r % 1000 == millis % 1000);
    assert(f.millisecond < 1000);
    assert(timestamp_of_fields(f) == (millis / d) * d + (r / 1000) * 1000 + r % 1000);
}

/// UTC calendar fields of an instant; `None` outside chrono's range.
pub fn to_datetime(millis: Timestamp) -> (r: Option<DateTimeFields>)
    ensures
        r is Some <==> in_date_range(millis as int),
        r matches Some(f) ==> is_utc_fields_of(f, millis as int),
{
    utc_fields(millis)
}

/// Market-local calendar fields of an instant; `None` outside chrono's range.
pub fn to_market_datetime(millis: Timestamp) -> (r: Option<DateTimeFields>)
    ensures
        r == market_local_of(millis as int),
        r is Some <==> in_date_range(millis as int),
{
    market_fields(millis)
}

/// Both dates are real (not the invalid marker `None`) and equal.
pub open spec fn same_date_spec(date1: Option<CivilDate>, date2: Option<CivilDate>) -> bool {
    date1 is Some && date1 == date2
}

/// Whether two dates are both known and equal; an unknown date matches nothing.
pub fn same_date(date1: Option<CivilDate>, date2: Option<CivilDate>) -> (r: bool)
    ensures
        r == same_date_spec(date1, date2),
{
    match (date1, date2) {
        (Some(a), Some(b)) => a == b,
        _ => false,
    }
}

/// Monday to Friday, from 09:30:00 up to but not including 16:00:00.
pub open spec fn in_session(f: DateTimeFields) -> bool {
    &&& f.weekday < 5
    &&& (f.hour > 9 || (f.hour == 9 && f.minute >= 30))
    &&& f.hour < 16
}

/// Whether local fields fall in a trading session. No holiday calendar is consulted.
pub fn dt_in_trading_time(dt: &DateTimeFields) -> (r: bool)
    ensures
        r == in_session(*dt),
{
    let weekday = dt.weekday < 5;
    let after_open = dt.hour > 9 || (dt.hour == 9 && dt.minute >= 30);
    let before_close = dt.hour < 16;
    weekday && after_open && before_close
}

/// The instant falls in a trading session, in the market's local time.
pub open spec fn trading_time_spec(ts: int) -> bool {
    match market_local_of(ts) {
        Some(f) => in_session(f),
        None => false,
    }
}

/// Whether an instant falls in a trading session of the market's local time.
pub fn ts_in_trading_time(ts: Timestamp) -> (r: bool)
    ensures
        r == trading_time_spec(ts as int),
{
    match to_market_datetime(ts) {
        Some(dt) => dt_in_trading_time(&dt),
        None => false,
    }
}

/// A position within a cycle, as the fraction `value / period`.
#[derive(Debug, Clone, Copy, PartialEq, Eq, Structural)]
pub struct CyclicalValue {
    pub value: i64,
    pub period: i64,
}

pub const CHRONO_FEATURES_SIZE: usize = 7;

/// The cyclical calendar features of one instant, each as a fraction.
#[derive(Debug, Clone, Copy, PartialEq, Eq, Structural)]
pub struct ChronoFeatures {
    pub second: CyclicalValue,
    pub minute: CyclicalValue,
    pub hour: CyclicalValue,
    pub day_of_week: CyclicalValue,
    pub day_of_month: CyclicalValue,
    pub day_of_quarter: CyclicalValue,
    pub month: CyclicalValue,
}

pub open spec fn cyclical(value: int, period: int) -> CyclicalValue {
    CyclicalValue { value: value as i64, period: period as i64 }
}

/// The features of calendar fields: second and minute as (value + 1) / 60, hour as
/// (value + 1) / 24, weekday as (days from Monday + 1) / 7, day of month over the month's
/// length, days since the quarter began over the quarter's length, and month over 12.
pub open spec fn chrono_features_spec(f: DateTimeFields) -> ChronoFeatures {
    let d = f.date;
    ChronoFeatures {
        second: cyclical(f.second + 1, 60),
        minute: cyclical(f.minute + 1, 60),
        hour: cyclical(f.hour + 1, 24),
        day_of_week: cyclical(f.weekday + 1, 7),
        day_of_month: cyclical(d.day as int, month_length(d.year as int, d.month as int)),
        day_of_quarter: cyclical(
            day_number(d) - day_number(quarter_start(d)),
            quarter_length(d.year as int, quarter_start_month(d.month as int)),
        ),
        month: cyclical(d.month as int, 12),
    }
}

/// Fields whose features can be computed: a valid date whose quarter ends within chrono's range.
pub open spec fn features_defined(f: DateTimeFields) -> bool {
    &&& f.date.is_valid()
    &&& f.date.year < MAX_YEAR || f.date.month < 10
    &&& f.hour < 24 && f.minute < 60 && f.second < 60 && f.weekday < 7
}

/// The cyclical calendar features of the given calendar fields.
pub fn chrono_features_of(f: &DateTimeFields) -> (r: ChronoFeatures)
    requires
        features_defined(*f),
    ensures
        r == chrono_features_spec(*f),
{
    let d = f.date;
    ChronoFeatures {
        second: CyclicalValue { value: f.second as i64 + 1, period: 60 },
        minute: CyclicalValue { value: f.minute as i64 + 1, period: 60 },
        hour: CyclicalValue { value: f.hour as i64 + 1, period: 24 },
        day_of_week: CyclicalValue { value: f.weekday as i64 + 1, period: 7 },
        day_of_month: CyclicalValue { value: d.day as i64, period: num_days_in_month(d.year, d.month) },
        day_of_quarter: CyclicalValue { value: day_of_quarter(d), period: num_days_in_quarter(d) },
        month: CyclicalValue { value: d.month as i64, period: 12 },
    }
}

/// The cyclical calendar features of an instant, from its UTC calendar fields. `None`
/// where the instant lies outside chrono's range or in the range's last quarter.
pub fn make_chrono_features(timestamp: Timestamp) -> (r: Option<ChronoFeatures>)
    ensures
        r matches Some(c) ==> exists|f: DateTimeFields|
            is_utc_fields_of(f, timestamp as int) && features_defined(f) && c == chrono_features_spec(f),
        r is None ==> !in_date_range(timestamp as int) || exists|f: DateTimeFields|
            is_utc_fields_of(f, timestamp as int) && !features_defined(f),
{
    match to_datetime(timestamp) {
        Some(f) => {
            if f.date.year < MAX_YEAR || f.date.month < 10 {
                Some(chrono_features_of(&f))
            } else {
                assert(is_utc_fields_of(f, timestamp as int) && !features_defined(f));
                None
            }
        },
        None => None,
    }
}

} // verus!
