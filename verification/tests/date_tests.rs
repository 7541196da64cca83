use chrono::Datelike;
use task_tracker::date::{days_in_month, is_leap_year, parse_date, CalendarDate};
use task_tracker::weekday::RecurringOption;

fn date(y: i32, m: u8, d: u8) -> CalendarDate {
    CalendarDate::from_ymd(y, m, d).expect("valid date")
}

#[test]
fn weekday_of_known_dates() {
    assert_eq!(date(2024, 3, 4).weekday(), RecurringOption::Monday);
    assert_eq!(date(2024, 3, 5).weekday(), RecurringOption::Tuesday);
    assert_eq!(date(2024, 3, 6).weekday(), RecurringOption::Wednesday);
    assert_eq!(date(1970, 1, 1).weekday(), RecurringOption::Thursday);
    assert_eq!(date(2000, 1, 1).weekday(), RecurringOption::Saturday);
    assert_eq!(date(2024, 2, 29).weekday(), RecurringOption::Thursday);
    assert_eq!(date(1, 1, 1).weekday(), RecurringOption::Monday);
    assert_eq!(date(9999, 12, 31).weekday(), RecurringOption::Friday);
}

fn to_tag(w: chrono::Weekday) -> RecurringOption {
    match w {
        chrono::Weekday::Mon => RecurringOption::Monday,
        chrono::Weekday::Tue => RecurringOption::Tuesday,
        chrono::Weekday::Wed => RecurringOption::Wednesday,
        chrono::Weekday::Thu => RecurringOption::Thursday,
        chrono::Weekday::Fri => RecurringOption::Friday,
        chrono::Weekday::Sat => RecurringOption::Saturday,
        chrono::Weekday::Sun => RecurringOption::Sunday,
    }
}

#[test]
fn weekday_matches_chrono_over_a_long_run() {
    let mut day = chrono::NaiveDate::from_ymd_opt(1999, 12, 25).unwrap();
    for _ in 0..3000 {
        let ours = date(day.year(), day.month() as u8, day.day() as u8).weekday();
        assert_eq!(ours, to_tag(day.weekday()), "mismatch on {day}");
        day = day.succ_opt().unwrap();
    }
}

#[test]
fn weekday_matches_chrono_on_sampled_years() {
    for y in [1, 4, 100, 400, 1582, 1600, 1700, 1900, 2000, 2100, 9999] {
        for (m, d) in [(1, 1), (2, 28), (3, 1), (6, 15), (12, 31)] {
            let c = chrono::NaiveDate::from_ymd_opt(y, m as u32, d as u32).unwrap();
            assert_eq!(date(y, m, d).weekday(), to_tag(c.weekday()), "mismatch on {c}");
        }
    }
}

#[test]
fn leap_years_follow_the_gregorian_rule() {
    assert!(is_leap_year(2024));
    assert!(is_leap_year(2000));
    assert!(is_leap_year(1600));
    assert!(!is_leap_year(1900));
    assert!(!is_leap_year(2023));
    assert!(!is_leap_year(2100));
}

#[test]
fn month_lengths() {
    assert_eq!(days_in_month(2023, 2), 28);
    assert_eq!(days_in_month(2024, 2), 29);
    assert_eq!(days_in_month(2024, 1), 31);
    assert_eq!(days_in_month(2024, 4), 30);
    assert_eq!(days_in_month(2024, 6), 30);
    assert_eq!(days_in_month(2024, 9), 30);
    assert_eq!(days_in_month(2024, 11), 30);
    assert_eq!(days_in_month(2024, 12), 31);
}

#[test]
fn from_ymd_accepts_only_real_dates() {
    assert!(CalendarDate::from_ymd(2024, 2, 29).is_some());
    assert!(CalendarDate::from_ymd(2023, 2, 29).is_none());
    assert!(CalendarDate::from_ymd(2024, 13, 1).is_none());
    assert!(CalendarDate::from_ymd(2024, 0, 1).is_none());
    assert!(CalendarDate::from_ymd(2024, 1, 0).is_none());
    assert!(CalendarDate::from_ymd(2024, 4, 31).is_none());
    assert!(CalendarDate::from_ymd(0, 1, 1).is_none());
    assert!(CalendarDate::from_ymd(10000, 1, 1).is_none());
    assert!(CalendarDate::from_ymd(-5, 1, 1).is_none());
    let c = CalendarDate::from_ymd(2024, 3, 4).unwrap();
    assert_eq!((c.year, c.month, c.day), (2024, 3, 4));
}

#[test]
fn parse_date_accepts_iso_dates() {
    assert_eq!(parse_date(b"2024-03-04"), Some(date(2024, 3, 4)));
    assert_eq!(parse_date(b"0001-01-01"), Some(date(1, 1, 1)));
    assert_eq!(parse_date(b"9999-12-31"), Some(date(9999, 12, 31)));
    assert_eq!(parse_date(b"2024-02-29"), Some(date(2024, 2, 29)));
}

#[test]
fn parse_date_rejects_malformed_input() {
    assert_eq!(parse_date(b""), None);
    assert_eq!(parse_date(b"2024-3-4"), None);
    assert_eq!(parse_date(b"2024-03-045"), None);
    assert_eq!(parse_date(b"2024/03/04"), None);
    assert_eq!(parse_date(b"abcd-ef-gh"), None);
    assert_eq!(parse_date(b"2024-13-01"), None);
    assert_eq!(parse_date(b"2023-02-29"), None);
    assert_eq!(parse_date(b"0000-01-01"), None);
    assert_eq!(parse_date(b"2024-00-10"), None);
    assert_eq!(parse_date(b"2024-10-00"), None);
    assert_eq!(parse_date(b"2024+03+04"), None);
}
