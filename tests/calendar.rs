use oml::chrono_util::{
    chrono_features_of, day_of_quarter, dt_in_trading_time, first_day_of_quarter,
    first_month_in_quarter, make_chrono_features, num_days_in_month, num_days_in_quarter,
    same_date, serialize_timestamp, to_datetime, to_market_datetime, ts_in_trading_time, CivilDate, CyclicalValue,
    DateTimeFields,
};

const HOUR: i64 = 3_600_000;
/// 2024-01-10, a Wednesday, 10:00 in New York (15:00 UTC).
const WED_10AM: i64 = 1_704_898_800_000;
/// 2024-07-10, a Wednesday, 10:00 in New York under daylight saving (14:00 UTC).
const SUMMER_WED_10AM: i64 = 1_720_620_000_000;

fn date(year: i32, month: u32, day: u32) -> CivilDate {
    CivilDate { year, month, day }
}

#[test]
fn month_lengths() {
    assert_eq!(num_days_in_month(2024, 2), 29);
    assert_eq!(num_days_in_month(2023, 2), 28);
    assert_eq!(num_days_in_month(1900, 2), 28);
    assert_eq!(num_days_in_month(2000, 2), 29);
    assert_eq!(num_days_in_month(2023, 4), 30);
    assert_eq!(num_days_in_month(2023, 12), 31);
    assert_eq!(num_days_in_month(2023, 1), 31);
}

#[test]
fn quarter_start_months() {
    let starts: Vec<u32> = (1..=12).map(first_month_in_quarter).collect();
    assert_eq!(starts, vec![1, 1, 1, 4, 4, 4, 7, 7, 7, 10, 10, 10]);
    assert_eq!(first_day_of_quarter(date(2024, 5, 15)), date(2024, 4, 1));
    assert_eq!(first_day_of_quarter(date(2024, 12, 31)), date(2024, 10, 1));
}

#[test]
fn day_of_quarter_is_zero_on_quarter_start() {
    for month in [1, 4, 7, 10] {
        assert_eq!(day_of_quarter(date(2024, month, 1)), 0);
        assert_eq!(day_of_quarter(date(2023, month, 1)), 0);
    }
}

#[test]
fn day_of_quarter_counts_from_quarter_start() {
    assert_eq!(day_of_quarter(date(2024, 5, 15)), 44);
    assert_eq!(day_of_quarter(date(2024, 3, 31)), 90);
    assert_eq!(day_of_quarter(date(2023, 3, 31)), 89);
    assert_eq!(day_of_quarter(date(2024, 12, 31)), 91);
}

#[test]
fn quarter_lengths() {
    assert_eq!(num_days_in_quarter(date(2024, 2, 10)), 91);
    assert_eq!(num_days_in_quarter(date(2023, 2, 10)), 90);
    assert_eq!(num_days_in_quarter(date(1900, 1, 1)), 90);
    assert_eq!(num_days_in_quarter(date(2000, 3, 31)), 91);
    assert_eq!(num_days_in_quarter(date(2023, 6, 30)), 91);
    assert_eq!(num_days_in_quarter(date(2023, 8, 1)), 92);
    assert_eq!(num_days_in_quarter(date(2023, 11, 5)), 92);
}

#[test]
fn same_date_needs_two_known_equal_dates() {
    assert!(same_date(Some(date(2024, 1, 10)), Some(date(2024, 1, 10))));
    assert!(!same_date(Some(date(2024, 1, 10)), Some(date(2024, 1, 11))));
    assert!(!same_date(None, None));
    assert!(!same_date(Some(date(2024, 1, 10)), None));
}

#[test]
fn utc_fields_of_epoch() {
    let f = to_datetime(0).unwrap();
    assert_eq!(f, DateTimeFields { date: date(1970, 1, 1), hour: 0, minute: 0, second: 0, millisecond: 0, weekday: 3 });
    let g = to_datetime(-1).unwrap();
    assert_eq!(g, DateTimeFields { date: date(1969, 12, 31), hour: 23, minute: 59, second: 59, millisecond: 999, weekday: 2 });
    assert_eq!(to_datetime(i64::MAX), None);
}

#[test]
fn market_fields_use_eastern_time() {
    let winter = to_market_datetime(WED_10AM).unwrap();
    assert_eq!(winter, DateTimeFields { date: date(2024, 1, 10), hour: 10, minute: 0, second: 0, millisecond: 0, weekday: 2 });
    let summer = to_market_datetime(SUMMER_WED_10AM).unwrap();
    assert_eq!((summer.hour, summer.minute), (10, 0));
    assert_eq!(to_market_datetime(i64::MIN), None);
}

#[test]
fn session_bounds() {
    let open = WED_10AM - HOUR / 2;
    let close = WED_10AM + 6 * HOUR;
    assert!(ts_in_trading_time(open));
    assert!(!ts_in_trading_time(open - 1));
    assert!(ts_in_trading_time(close - 1));
    assert!(!ts_in_trading_time(close));
    assert!(ts_in_trading_time(WED_10AM));
    assert!(ts_in_trading_time(SUMMER_WED_10AM));
    assert!(!ts_in_trading_time(WED_10AM + 10 * HOUR));
    assert!(!ts_in_trading_time(i64::MAX));
}

#[test]
fn weekends_are_closed() {
    let saturday = WED_10AM + 3 * 24 * HOUR;
    let sunday = saturday + 24 * HOUR;
    let friday = WED_10AM + 2 * 24 * HOUR;
    assert!(!ts_in_trading_time(saturday));
    assert!(!ts_in_trading_time(sunday));
    assert!(ts_in_trading_time(friday));
}

#[test]
fn trading_time_of_fields() {
    let mut f = DateTimeFields { date: date(2024, 1, 10), hour: 9, minute: 30, second: 0, millisecond: 0, weekday: 2 };
    assert!(dt_in_trading_time(&f));
    f.minute = 29;
    f.second = 59;
    assert!(!dt_in_trading_time(&f));
    f.hour = 15;
    f.minute = 59;
    assert!(dt_in_trading_time(&f));
    f.hour = 16;
    f.minute = 0;
    f.second = 0;
    assert!(!dt_in_trading_time(&f));
    f.hour = 12;
    f.weekday = 5;
    assert!(!dt_in_trading_time(&f));
}

#[test]
fn chrono_features_of_fields() {
    let f = DateTimeFields { date: date(2024, 5, 15), hour: 13, minute: 45, second: 30, millisecond: 250, weekday: 2 };
    let c = chrono_features_of(&f);
    assert_eq!(c.second, CyclicalValue { value: 31, period: 60 });
    assert_eq!(c.minute, CyclicalValue { value: 46, period: 60 });
    assert_eq!(c.hour, CyclicalValue { value: 14, period: 24 });
    assert_eq!(c.day_of_week, CyclicalValue { value: 3, period: 7 });
    assert_eq!(c.day_of_month, CyclicalValue { value: 15, period: 31 });
    assert_eq!(c.day_of_quarter, CyclicalValue { value: 44, period: 91 });
    assert_eq!(c.month, CyclicalValue { value: 5, period: 12 });
}

#[test]
fn chrono_features_of_quarter_start_instant() {
    // 2024-04-01 00:00:00 UTC, a Monday.
    let c = make_chrono_features(1_711_929_600_000).unwrap();
    assert_eq!(c.day_of_quarter, CyclicalValue { value: 0, period: 91 });
    assert_eq!(c.day_of_month, CyclicalValue { value: 1, period: 30 });
    assert_eq!(c.day_of_week, CyclicalValue { value: 1, period: 7 });
    assert_eq!(c.hour, CyclicalValue { value: 1, period: 24 });
    assert_eq!(make_chrono_features(i64::MAX), None);
}

#[test]
fn timestamps_round_trip_through_utc_fields() {
    for ms in [0i64, -1, 1_704_898_800_123, WED_10AM, SUMMER_WED_10AM + 59_999, -62_135_596_800_000] {
        let f = to_datetime(ms).unwrap();
        assert_eq!(serialize_timestamp(&f), ms);
    }
    let f = DateTimeFields { date: date(2024, 1, 10), hour: 15, minute: 0, second: 0, millisecond: 7, weekday: 2 };
    assert_eq!(serialize_timestamp(&f), WED_10AM + 7);
}

#[test]
fn first_day_of_year_one_is_a_monday() {
    let f = to_datetime(-62_135_596_800_000).unwrap();
    assert_eq!(f.date, date(1, 1, 1));
    assert_eq!(f.weekday, 0);
}
