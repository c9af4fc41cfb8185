use chrono::Datelike;
use osa2cal::caldav::escape_ical;
use osa2cal::datetime::{Date, DateTime, Time};
use osa2cal::schedule::{print_schedule, Schedule};

fn date(y: i32, m: u32, d: u32) -> Date {
    Date::new(y, m, d).unwrap()
}

#[test]
fn escape_ical_escapes_special_characters() {
    assert_eq!(escape_ical("a;b,c\\d\ne").as_str(), "a\\;b\\,c\\\\d\\ne");
}

#[test]
fn escape_ical_keeps_plain_text() {
    assert_eq!(escape_ical("Mathematics 101").as_str(), "Mathematics 101");
    assert_eq!(escape_ical("").as_str(), "");
    assert_eq!(escape_ical("Физика").as_str(), "Физика");
}

#[test]
fn escape_ical_output_has_no_line_feed() {
    let e = escape_ical("line one\nline two\n\n");
    assert!(!e.contains('\n'));
    assert_eq!(e.as_str(), "line one\\nline two\\n\\n");
}

#[test]
fn escape_ical_distinguishes_backslash_n_from_newline() {
    assert_ne!(escape_ical("\\n"), escape_ical("\n"));
    assert_eq!(escape_ical("\\n").as_str(), "\\\\n");
}

#[test]
fn date_new_checks_the_calendar() {
    assert!(Date::new(2024, 2, 29).is_some());
    assert!(Date::new(2023, 2, 29).is_none());
    assert!(Date::new(2000, 2, 29).is_some());
    assert!(Date::new(1900, 2, 29).is_none());
    assert!(Date::new(2024, 4, 31).is_none());
    assert!(Date::new(2024, 13, 1).is_none());
    assert!(Date::new(2024, 0, 1).is_none());
    assert!(Date::new(2024, 1, 0).is_none());
    assert!(Date::new(262142, 12, 31).is_some());
    assert!(Date::new(262143, 1, 1).is_none());
    assert!(Date::new(-262143, 1, 1).is_some());
    assert!(Date::new(-262144, 1, 1).is_none());
}

#[test]
fn time_new_checks_the_clock() {
    assert!(Time::new(23, 59, 59).is_some());
    assert!(Time::new(24, 0, 0).is_none());
    assert!(Time::new(9, 60, 0).is_none());
    assert!(Time::new(9, 0, 60).is_none());
}

#[test]
fn date_text_matches_chrono_display() {
    assert_eq!(date(2026, 3, 15).to_text().as_str(), "2026-03-15");
    assert_eq!(date(5, 1, 2).to_text().as_str(), "0005-01-02");
    assert_eq!(date(-1, 1, 1).to_text().as_str(), "-0001-01-01");
    assert_eq!(date(10000, 12, 31).to_text().as_str(), "+10000-12-31");
    for (y, m, d) in [(2026, 3, 15), (5, 1, 2), (-1, 1, 1), (10000, 12, 31), (-12345, 6, 7)] {
        let ours = date(y, m, d).to_text();
        let theirs = chrono::NaiveDate::from_ymd_opt(y, m, d).unwrap().to_string();
        assert_eq!(ours, theirs);
    }
}

#[test]
fn compact_text_matches_chrono_format() {
    for (y, mo, d, h, mi, s) in [(2026, 3, 15, 9, 5, 0), (999, 12, 31, 23, 59, 59), (-7, 1, 1, 0, 0, 0), (12000, 2, 29, 1, 2, 3)] {
        let dt = DateTime { date: date(y, mo, d), time: Time::new(h, mi, s).unwrap() };
        let mut ours = String::new();
        dt.push_compact(&mut ours);
        let theirs = chrono::NaiveDate::from_ymd_opt(y, mo, d)
            .unwrap()
            .and_hms_opt(h, mi, s)
            .unwrap()
            .format("%Y%m%dT%H%M%S")
            .to_string();
        assert_eq!(ours, theirs);
    }
    let dt = DateTime { date: date(2026, 3, 15), time: Time::new(9, 5, 0).unwrap() };
    let mut s = String::new();
    dt.push_compact(&mut s);
    assert_eq!(s.as_str(), "20260315T090500");
}

#[test]
fn time_hm_text() {
    let mut s = String::new();
    Time::new(8, 5, 30).unwrap().push_hm(&mut s);
    assert_eq!(s.as_str(), "08:05");
}

fn weekday_of(y: i32, m: u32, d: u32) -> String {
    let day = Schedule { group_id: 1, date: date(y, m, d), lessons: vec![] };
    print_schedule(&[day])[0].weekday.clone()
}

#[test]
fn weekday_names_follow_chrono() {
    assert_eq!(weekday_of(2024, 1, 1), "Mon");
    assert_eq!(weekday_of(1970, 1, 1), "Thu");
    assert_eq!(weekday_of(2026, 3, 15), "Sun");
    assert_eq!(weekday_of(2000, 2, 29), "Tue");
    assert_eq!(weekday_of(1, 1, 1), "Mon");
    assert_eq!(weekday_of(-100, 3, 1), format!("{:?}", chrono::NaiveDate::from_ymd_opt(-100, 3, 1).unwrap().weekday()));
}
