use osa2cal::config::Config;
use osa2cal::datetime::{Date, Time};
use osa2cal::ics::{build_calendar, generate_ics};
use osa2cal::schedule::{create_caldav_event, print_schedule, sync_events, Lesson, Schedule};

fn lesson(title: &str, order: u32, start: (u32, u32), end: (u32, u32)) -> Lesson {
    Lesson {
        title: title.to_string(),
        cabinet: "Room 101".to_string(),
        teacher: "Dr. Smith".to_string(),
        order,
        start_time: Time::new(start.0, start.1, 0).unwrap(),
        end_time: Time::new(end.0, end.1, 0).unwrap(),
    }
}

fn day(group: u32, y: i32, m: u32, d: u32, lessons: Vec<Lesson>) -> Schedule {
    Schedule { group_id: group, date: Date::new(y, m, d).unwrap(), lessons }
}

fn config(college: Option<&str>, tz: Option<&str>) -> Config {
    let mut c = Config::default();
    c.college_name = college.map(|s| s.to_string());
    c.timezone = tz.map(|s| s.to_string());
    c
}

#[test]
fn caldav_event_fields() {
    let s = day(123, 2026, 3, 15, vec![lesson("Mathematics", 1, (9, 0), (10, 30))]);
    let e = create_caldav_event(&s, &s.lessons[0], &config(Some("My College"), None));
    assert_eq!(e.uid.as_str(), "osa2cal-123-2026-03-15-1");
    assert_eq!(e.summary.as_str(), "Mathematics");
    assert_eq!(e.location.as_deref(), Some("My College - Room 101"));
    assert_eq!(e.description.as_deref(), Some("Teacher: Dr. Smith\nGroup ID: 123"));
    assert_eq!(e.start.date, s.date);
    assert_eq!((e.start.time.hour, e.start.time.minute), (9, 0));
    assert_eq!((e.end.time.hour, e.end.time.minute), (10, 30));
    assert_eq!(e.timezone.as_str(), "Europe/Moscow");
}

#[test]
fn caldav_event_defaults_and_configured_zone() {
    let s = day(7, 2026, 1, 5, vec![lesson("Физика", 3, (12, 0), (13, 30))]);
    let e = create_caldav_event(&s, &s.lessons[0], &config(None, Some("Asia/Omsk")));
    assert_eq!(e.location.as_deref(), Some("College - Room 101"));
    assert_eq!(e.timezone.as_str(), "Asia/Omsk");
    assert_eq!(e.uid.as_str(), "osa2cal-7-2026-01-05-3");
}

#[test]
fn caldav_uids_differ_between_lessons() {
    let s = day(7, 2026, 1, 5, vec![lesson("A", 1, (9, 0), (10, 0)), lesson("A", 2, (10, 0), (11, 0))]);
    let c = config(None, None);
    let a = create_caldav_event(&s, &s.lessons[0], &c);
    let b = create_caldav_event(&s, &s.lessons[1], &c);
    assert_ne!(a.uid, b.uid);
}

#[test]
fn sync_events_covers_every_lesson_in_order() {
    let days = vec![
        day(1, 2026, 3, 16, vec![lesson("A", 1, (9, 0), (10, 0)), lesson("B", 2, (10, 10), (11, 10))]),
        day(1, 2026, 3, 17, vec![]),
        day(1, 2026, 3, 18, vec![lesson("C", 1, (8, 0), (9, 0))]),
    ];
    let events = sync_events(&days, &config(None, None));
    assert_eq!(events.len(), 3);
    let titles: Vec<&str> = events.iter().map(|e| e.summary.as_str()).collect();
    assert_eq!(titles, vec!["A", "B", "C"]);
    assert_eq!(events[2].uid.as_str(), "osa2cal-1-2026-03-18-1");
    assert!(sync_events(&[], &config(None, None)).is_empty());
}

#[test]
fn listing_of_days() {
    let days = vec![
        day(1, 2026, 3, 15, vec![lesson("Mathematics", 1, (9, 0), (10, 30)), lesson("History", 2, (10, 40), (12, 10))]),
        day(1, 2026, 3, 16, vec![]),
    ];
    let listing = print_schedule(&days);
    assert_eq!(listing.len(), 2);
    assert_eq!(listing[0].date.as_str(), "2026-03-15");
    assert_eq!(listing[0].weekday.as_str(), "Sun");
    assert_eq!(listing[0].lesson_count, 2);
    assert_eq!(listing[0].lessons[0].time.as_str(), "09:00-10:30");
    assert_eq!(listing[0].lessons[1].time.as_str(), "10:40-12:10");
    assert_eq!(listing[0].lessons[1].title.as_str(), "History");
    assert_eq!(listing[0].lessons[1].cabinet.as_str(), "Room 101");
    assert_eq!(listing[0].lessons[1].teacher.as_str(), "Dr. Smith");
    assert_eq!(listing[1].weekday.as_str(), "Mon");
    assert_eq!(listing[1].lesson_count, 0);
}

#[test]
fn ics_file_holds_each_lesson() {
    let mut l = lesson("Mathematics", 1, (9, 0), (10, 30));
    l.start_time = Time::new(9, 0, 45).unwrap();
    let days = vec![day(123, 2026, 3, 15, vec![l, lesson("History", 2, (10, 40), (12, 10))])];
    let text = generate_ics(&days, &config(Some("My College"), None));
    assert!(text.starts_with("BEGIN:VCALENDAR\r\n"));
    assert!(text.ends_with("END:VCALENDAR\r\n"));
    assert!(text.contains("\r\nUID:osa2cal-123-2026-03-15-2\r\n"));
    assert!(text.contains("SUMMARY:Mathematics\r\n"));
    assert!(text.contains("SUMMARY:History\r\n"));
    assert!(text.contains("UID:osa2cal-123-2026-03-15-1\r\n"));
    assert!(text.contains("UID:osa2cal-123-2026-03-15-2\r\n"));
    assert!(text.contains("DTSTART:20260315T090000\r\n"));
    assert!(text.contains("DTEND:20260315T103000\r\n"));
    assert!(text.contains("DTSTART:20260315T104000\r\n"));
    assert!(text.contains("LOCATION:My College - Room 101\r\n"));
    assert!(text.contains("DESCRIPTION:Teacher: Dr. Smith\\nGroup ID: 123\r\n"));
    assert_eq!(text.matches("BEGIN:VEVENT").count(), 2);
}

#[test]
fn ics_calendar_has_one_event_per_lesson() {
    let days = vec![
        day(5, 2026, 3, 16, vec![lesson("A", 1, (9, 0), (10, 0))]),
        day(5, 2026, 3, 17, vec![lesson("B", 1, (9, 0), (10, 0)), lesson("C", 2, (10, 0), (11, 0))]),
    ];
    let cal = build_calendar(&days, &config(None, None));
    assert_eq!(cal.components.len(), 3);
    let text = generate_ics(&[], &config(None, None));
    assert!(!text.contains("BEGIN:VEVENT"));
    assert!(text.contains("BEGIN:VCALENDAR"));
}

#[test]
fn ics_file_layout_of_one_lesson() {
    let days = vec![day(123, 2026, 3, 15, vec![lesson("Mathematics", 1, (9, 0), (10, 30))])];
    let text = generate_ics(&days, &config(Some("My College"), None));
    let lines: Vec<&str> = text.split("\r\n").collect();
    assert_eq!(lines.len(), 15);
    assert_eq!(&lines[0..5], &["BEGIN:VCALENDAR", "VERSION:2.0", "PRODID:ICALENDAR-RS", "CALSCALE:GREGORIAN", "BEGIN:VEVENT"]);
    assert!(lines[5].starts_with("DTSTAMP:"));
    assert!(lines[5].ends_with('Z'));
    assert_eq!(lines[5].len(), "DTSTAMP:20260315T090000Z".len());
    assert_eq!(
        &lines[6..15],
        &[
            "DESCRIPTION:Teacher: Dr. Smith\\nGroup ID: 123",
            "DTEND:20260315T103000",
            "DTSTART:20260315T090000",
            "LOCATION:My College - Room 101",
            "SUMMARY:Mathematics",
            "UID:osa2cal-123-2026-03-15-1",
            "END:VEVENT",
            "END:VCALENDAR",
            "",
        ],
    );
}
