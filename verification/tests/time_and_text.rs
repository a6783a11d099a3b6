use chrono::Datelike;
use triage_tracker::text::{decimal_text, join, signed_decimal_text};
use triage_tracker::time::{
    Date, Instant, Ttl, MAX_DAY, MAX_SECOND, MIN_DAY, MIN_SECOND, UNIX_EPOCH_DAY,
};

fn day(year: i32, month: u32, day: u32) -> Date {
    let days = chrono::NaiveDate::from_ymd_opt(year, month, day).unwrap().num_days_from_ce();
    Date::from_days(days).unwrap()
}

#[test]
fn date_from_days_accepts_exactly_the_calendar() {
    assert!(Date::from_days(MIN_DAY).is_some());
    assert!(Date::from_days(MAX_DAY).is_some());
    assert!(Date::from_days(MIN_DAY - 1).is_none());
    assert!(Date::from_days(MAX_DAY + 1).is_none());
    assert!(Date::from_days(i32::MIN).is_none());
    assert!(Date::from_days(i32::MAX).is_none());
    assert_eq!(Date::from_days(730_000).unwrap().days(), 730_000);
}

#[test]
fn calendar_bounds_are_those_of_chrono() {
    assert_eq!(chrono::NaiveDate::MIN.num_days_from_ce(), MIN_DAY);
    assert_eq!(chrono::NaiveDate::MAX.num_days_from_ce(), MAX_DAY);
    assert!(chrono::NaiveDate::from_num_days_from_ce_opt(MIN_DAY).is_some());
    assert!(chrono::NaiveDate::from_num_days_from_ce_opt(MIN_DAY - 1).is_none());
    assert!(chrono::NaiveDate::from_num_days_from_ce_opt(MAX_DAY).is_some());
    assert!(chrono::NaiveDate::from_num_days_from_ce_opt(MAX_DAY + 1).is_none());
    assert_eq!(
        chrono::NaiveDate::from_ymd_opt(1970, 1, 1).unwrap().num_days_from_ce(),
        UNIX_EPOCH_DAY
    );
    assert_eq!((MIN_DAY as i64 - UNIX_EPOCH_DAY as i64) * 86_400, MIN_SECOND);
    assert_eq!((MAX_DAY as i64 - UNIX_EPOCH_DAY as i64 + 1) * 86_400 - 1, MAX_SECOND);
}

#[test]
fn dates_compare_by_day_number() {
    let earlier = day(2021, 3, 4);
    let later = day(2021, 3, 5);
    assert!(earlier.is_before(&later));
    assert!(!later.is_before(&earlier));
    assert!(!earlier.is_before(&earlier));
    assert!(later.is_after(&earlier));
    assert!(!earlier.is_after(&earlier));
    assert!(earlier.same_day(&day(2021, 3, 4)));
    assert!(!earlier.same_day(&later));
    assert_eq!(later.days_since(&earlier), 1);
    assert_eq!(earlier.days_since(&later), -1);
    assert_eq!(day(2021, 1, 1).days_since(&day(2020, 1, 1)), 366);
}

#[test]
fn minus_days_and_pred_stay_in_the_calendar() {
    assert_eq!(day(2021, 3, 1).pred(), Some(day(2021, 2, 28)));
    assert_eq!(day(2020, 3, 1).pred(), Some(day(2020, 2, 29)));
    assert_eq!(day(2021, 3, 4).minus_days(365), Some(day(2020, 3, 4)));
    assert_eq!(day(2021, 3, 4).minus_days(0), Some(day(2021, 3, 4)));
    let first = Date::from_days(MIN_DAY).unwrap();
    assert_eq!(first.pred(), None);
    assert_eq!(first.minus_days(u32::MAX), None);
    let last = Date::from_days(MAX_DAY).unwrap();
    assert_eq!(last.minus_days(1).unwrap().days(), MAX_DAY - 1);
}

#[test]
fn iso_text_is_written_by_chrono() {
    assert_eq!(day(2021, 3, 4).iso_text(), "2021-03-04");
    assert_eq!(day(1999, 12, 31).iso_text(), "1999-12-31");
    assert_eq!(Date::from_days(1).unwrap().iso_text(), "0001-01-01");
    assert_eq!(Date::from_days(730_000).unwrap().iso_text(), "1999-09-03");
}

#[test]
fn instant_from_secs_accepts_exactly_the_calendar() {
    assert!(Instant::from_secs(MIN_SECOND).is_some());
    assert!(Instant::from_secs(MAX_SECOND).is_some());
    assert!(Instant::from_secs(MIN_SECOND - 1).is_none());
    assert!(Instant::from_secs(MAX_SECOND + 1).is_none());
    assert_eq!(Instant::from_secs(1_614_816_000).unwrap().secs(), 1_614_816_000);
}

#[test]
fn instant_date_is_the_utc_day() {
    let at = |secs: i64| Instant::from_secs(secs).unwrap().date().days();
    assert_eq!(at(0), UNIX_EPOCH_DAY);
    assert_eq!(at(86_399), UNIX_EPOCH_DAY);
    assert_eq!(at(86_400), UNIX_EPOCH_DAY + 1);
    assert_eq!(at(-1), UNIX_EPOCH_DAY - 1);
    assert_eq!(at(-86_400), UNIX_EPOCH_DAY - 1);
    assert_eq!(at(-86_401), UNIX_EPOCH_DAY - 2);
    assert_eq!(at(MIN_SECOND), MIN_DAY);
    assert_eq!(at(MAX_SECOND), MAX_DAY);
}

#[test]
fn instant_date_agrees_with_chrono() {
    let samples: [i64; 9] = [
        0,
        1,
        -1,
        86_399,
        -86_401,
        1_614_816_000,
        1_614_902_399,
        951_782_400,
        -2_208_988_800,
    ];
    for secs in samples {
        let expected =
            chrono::DateTime::from_timestamp(secs, 0).unwrap().date_naive().num_days_from_ce();
        assert_eq!(Instant::from_secs(secs).unwrap().date().days(), expected);
    }
}

#[test]
fn seconds_since_is_the_difference() {
    let earlier = Instant::from_secs(100).unwrap();
    let later = Instant::from_secs(250).unwrap();
    assert_eq!(later.seconds_since(&earlier), 150);
    assert_eq!(earlier.seconds_since(&later), -150);
    let first = Instant::from_secs(MIN_SECOND).unwrap();
    let last = Instant::from_secs(MAX_SECOND).unwrap();
    assert_eq!(last.seconds_since(&first), MAX_SECOND - MIN_SECOND);
}

#[test]
fn now_is_read_from_the_clock() {
    let before = chrono::Utc::now().timestamp();
    let now = Instant::now();
    let after = chrono::Utc::now().timestamp();
    assert!(now.secs() >= 0);
    assert!(before <= now.secs() && now.secs() <= after);
}

#[test]
fn ttl_days_are_counted_in_seconds() {
    assert_eq!(Ttl::days(1).secs, 86_400);
    assert_eq!(Ttl::days(0).secs, 0);
    assert_eq!(Ttl::days(u32::MAX).secs, u32::MAX as i64 * 86_400);
    assert_eq!(Ttl::seconds(-5).secs, -5);
}

#[test]
fn decimal_text_writes_digits() {
    assert_eq!(decimal_text(0), "0");
    assert_eq!(decimal_text(7), "7");
    assert_eq!(decimal_text(10), "10");
    assert_eq!(decimal_text(1_234_567_890), "1234567890");
    assert_eq!(decimal_text(u32::MAX as u128), "4294967295");
    assert_eq!(decimal_text(u128::MAX), u128::MAX.to_string());
}

#[test]
fn signed_decimal_text_writes_the_sign() {
    assert_eq!(signed_decimal_text(0), "0");
    assert_eq!(signed_decimal_text(12), "12");
    assert_eq!(signed_decimal_text(-12), "-12");
    assert_eq!(signed_decimal_text(i128::MIN), i128::MIN.to_string());
    assert_eq!(signed_decimal_text(i128::MAX), i128::MAX.to_string());
}

#[test]
fn join_puts_the_separator_between() {
    let none: Vec<String> = Vec::new();
    assert_eq!(join(&none, ","), "");
    assert_eq!(join(&vec!["a".to_string()], ","), "a");
    assert_eq!(join(&vec!["a".to_string(), "b".to_string(), "".to_string()], ", "), "a, b, ");
}
