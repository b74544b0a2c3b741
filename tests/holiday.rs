use holiday_jp::date::{parse_iso_date, CalendarDate};
use holiday_jp::holiday::{exit_status, HolidayError, Holidays};

fn date(s: &str) -> CalendarDate {
    parse_iso_date(s).unwrap()
}

fn test_data() -> Vec<&'static str> {
    vec!["---", "1970-01-01: 元日", "1970-01-15: 成人の日", "1970-02-11: 建国記念の日"]
}

fn sample_holidays() -> Holidays {
    Holidays::new(vec![date("1970-01-01"), date("1970-01-15"), date("1970-02-11")])
}

fn contains_date(d: &str, holidays: Holidays) -> bool {
    holidays.contain(date(d))
}

fn is_holiday_on(d: &str, holidays: Holidays) -> bool {
    holiday_jp::holiday::is_holiday(date(d), holidays)
}

#[test]
fn is_weekend() {
    assert_eq!(holiday_jp::date::is_weekend(date("2021-02-20")), true);
    assert_eq!(holiday_jp::date::is_weekend(date("2021-02-21")), true);
    assert_eq!(holiday_jp::date::is_weekend(date("2021-02-23")), false);
}

#[test]
fn extract_date() {
    let actual = holiday_jp::holiday::extract_date("1970-01-01: 元日").unwrap();
    let expect = date("1970-01-01");
    assert_eq!(actual, expect);

    assert_eq!(holiday_jp::holiday::extract_date("---").is_err(), true);
}

#[test]
fn from_str_list() {
    let holidays = sample_holidays();
    assert_eq!(Holidays::from_str_list(test_data()).unwrap(), holidays);
}

#[test]
fn contain() {
    let holidays = sample_holidays();
    assert_eq!(contains_date("1970-01-01", holidays.clone()), true);
    assert_eq!(contains_date("1970-01-02", holidays.clone()), false);
}

#[test]
fn is_holiday() {
    let holidays = sample_holidays();
    assert_eq!(is_holiday_on("1970-01-01", holidays.clone()), true);
    assert_eq!(is_holiday_on("1970-01-02", holidays.clone()), false);
    assert_eq!(is_holiday_on("1970-01-03", holidays.clone()), true);
    assert_eq!(is_holiday_on("1970-01-04", holidays.clone()), true);
}

#[test]
fn weekday_of_each_day_of_a_week() {
    let expected = [
        ("1970-01-05", 0, false),
        ("1970-01-06", 1, false),
        ("1970-01-07", 2, false),
        ("1970-01-08", 3, false),
        ("1970-01-09", 4, false),
        ("1970-01-10", 5, true),
        ("1970-01-11", 6, true),
    ];
    for (d, w, weekend) in expected {
        assert_eq!(date(d).weekday_from_monday(), w);
        assert_eq!(holiday_jp::date::is_weekend(date(d)), weekend);
    }
}

#[test]
fn weekday_far_from_the_epoch() {
    assert_eq!(date("2000-02-29").weekday_from_monday(), 1);
    assert_eq!(date("1900-03-01").weekday_from_monday(), 3);
    assert_eq!(CalendarDate::from_ymd(1, 1, 1).unwrap().weekday_from_monday(), 0);
    assert_eq!(CalendarDate::from_ymd(-1, 12, 31).unwrap().weekday_from_monday(), 4);
}

#[test]
fn from_ymd_checks_the_calendar() {
    assert!(CalendarDate::from_ymd(2020, 2, 29).is_some());
    assert!(CalendarDate::from_ymd(2021, 2, 29).is_none());
    assert!(CalendarDate::from_ymd(1900, 2, 29).is_none());
    assert!(CalendarDate::from_ymd(2000, 2, 29).is_some());
    assert!(CalendarDate::from_ymd(2021, 4, 31).is_none());
    assert!(CalendarDate::from_ymd(2021, 13, 1).is_none());
    assert!(CalendarDate::from_ymd(2021, 1, 0).is_none());
    assert!(CalendarDate::from_ymd(262142, 12, 31).is_some());
    assert!(CalendarDate::from_ymd(262143, 1, 1).is_none());
    assert!(CalendarDate::from_ymd(-262143, 1, 1).is_some());
    assert!(CalendarDate::from_ymd(-262144, 12, 31).is_none());
    let d = CalendarDate::from_ymd(1970, 2, 11).unwrap();
    assert_eq!((d.year(), d.month(), d.day()), (1970, 2, 11));
    assert_eq!(d, date("1970-02-11"));
}

#[test]
fn parse_rejects_non_dates() {
    assert!(parse_iso_date("---").is_err());
    assert!(parse_iso_date("").is_err());
    assert!(parse_iso_date("1970-02-30").is_err());
    assert!(parse_iso_date("holidays:").is_err());
    let d = date("2021-02-23");
    assert_eq!((d.year(), d.month(), d.day()), (2021, 2, 23));
}

#[test]
fn extract_date_uses_text_before_first_delimiter() {
    assert_eq!(holiday_jp::holiday::extract_date("1970-01-15: 成人の日: 祝日").unwrap(), date("1970-01-15"));
    assert_eq!(holiday_jp::holiday::extract_date("1970-01-15").unwrap(), date("1970-01-15"));
    assert!(holiday_jp::holiday::extract_date("").is_err());
    assert!(holiday_jp::holiday::extract_date(": 1970-01-15").is_err());
}

#[test]
fn contain_rejects_near_misses() {
    let holidays = sample_holidays();
    assert!(contains_date("1970-01-15", holidays.clone()));
    assert!(contains_date("1970-02-11", holidays.clone()));
    assert!(!contains_date("1970-01-14", holidays.clone()));
    assert!(!contains_date("1970-01-16", holidays.clone()));
    assert!(!contains_date("1971-01-01", holidays.clone()));
    assert!(!contains_date("1969-12-31", holidays.clone()));
    assert!(!contains_date("1970-01-01", Holidays::new(vec![])));
}

#[test]
fn listed_weekday_is_holiday() {
    // 1970-01-15 is a Thursday.
    assert!(!holiday_jp::date::is_weekend(date("1970-01-15")));
    assert!(is_holiday_on("1970-01-15", sample_holidays()));
    assert!(is_holiday_on("1970-01-10", Holidays::new(vec![])));
    assert!(!is_holiday_on("1970-01-16", sample_holidays()));
}

#[test]
fn three_line_sample_in_order() {
    let lines = vec!["1970-01-01: New Year", "1970-01-15: Adults Day", "1970-02-11: Foundation Day"];
    let holidays = Holidays::from_str_list(lines).unwrap();
    assert_eq!(holidays, sample_holidays());
    let reversed = Holidays::from_str_list(vec!["1970-02-11: a", "1970-01-01: b"]).unwrap();
    assert_ne!(reversed, Holidays::new(vec![date("1970-01-01"), date("1970-02-11")]));
}

#[test]
fn from_text_splits_lines() {
    let text = "---\n1970-01-01: New Year\n1970-01-15: Adults Day\n\n# note\n1970-02-11: Foundation Day\n";
    assert_eq!(Holidays::from_text(text), sample_holidays());
    assert_eq!(Holidays::from_text(""), Holidays::new(vec![]));
    assert_eq!(Holidays::from_text("1970-01-01: a\n1970-01-01: b"), Holidays::new(vec![date("1970-01-01"), date("1970-01-01")]));
}

#[test]
fn load_well_formed_text() {
    let text = "---\n1970-01-01: 元日\n1970-01-15: 成人の日\n1970-02-11: 建国記念の日\n";
    let holidays = Holidays::load(Some(text)).unwrap();
    assert_eq!(is_holiday_on("1970-01-01", holidays.clone()), true);
    assert_eq!(is_holiday_on("1970-01-02", holidays.clone()), false);
    assert_eq!(is_holiday_on("1970-01-03", holidays.clone()), true);
    assert_eq!(is_holiday_on("1970-01-04", holidays.clone()), true);
}

#[test]
fn load_without_data_is_unavailable() {
    assert_eq!(Holidays::load(None), Err(HolidayError::Unavailable));
    assert_eq!(Holidays::load(Some("")), Ok(Holidays::new(vec![])));
}

#[test]
fn exit_status_codes() {
    assert_eq!(exit_status(Ok(sample_holidays()), date("1970-01-01")), 1);
    assert_eq!(exit_status(Ok(sample_holidays()), date("1970-01-03")), 1);
    assert_eq!(exit_status(Ok(sample_holidays()), date("1970-01-02")), 0);
    assert_eq!(exit_status(Err(HolidayError::Unavailable), date("1970-01-02")), -1);
}
