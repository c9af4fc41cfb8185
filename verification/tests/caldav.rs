use osa2cal::caldav::{event_to_ical, event_to_ical_at, resolve_calendar_url, CalDavClient, CalDavError, DavMethod, Event, UrlError};
use osa2cal::datetime::{Date, DateTime, Time};

fn client(base: &str) -> CalDavClient {
    CalDavClient::new(base, "user", "secret").unwrap()
}

fn dt(y: i32, mo: u32, d: u32, h: u32, mi: u32, s: u32) -> DateTime {
    DateTime { date: Date::new(y, mo, d).unwrap(), time: Time::new(h, mi, s).unwrap() }
}

fn sample_event() -> Event {
    Event {
        uid: "osa2cal-7-2026-03-15-1".to_string(),
        summary: "Math; Algebra, part 1".to_string(),
        location: Some("My College - Room 101".to_string()),
        description: Some("Teacher: Dr. Smith\nGroup ID: 7".to_string()),
        start: dt(2026, 3, 15, 9, 0, 0),
        end: dt(2026, 3, 15, 10, 30, 0),
        timezone: "Europe/Moscow".to_string(),
    }
}

#[test]
fn new_refuses_an_invalid_url() {
    assert!(matches!(CalDavClient::new("not a url", "u", "p"), Err(CalDavError::InvalidUrl(_))));
    assert!(CalDavClient::new("", "u", "p").is_err());
}

#[test]
fn calendar_url_is_joined_under_the_base() {
    let c = client("https://cal.example.com/dav.php/calendars/user/");
    assert_eq!(c.get_calendar_url("schedule").as_str(), "https://cal.example.com/dav.php/calendars/user/schedule/");
}

#[test]
fn calendar_url_keeps_a_base_that_names_the_calendar() {
    let c = client("https://cal.example.com/dav.php/calendars/user/schedule/");
    assert_eq!(c.get_calendar_url("schedule").as_str(), "https://cal.example.com/dav.php/calendars/user/schedule/");
    let c = client("https://cal.example.com/dav.php/calendars/user/schedule");
    assert_eq!(c.get_calendar_url("schedule").as_str(), "https://cal.example.com/dav.php/calendars/user/schedule");
}

#[test]
fn calendar_url_join_replaces_last_segment_without_slash() {
    let c = client("https://cal.example.com/calendars/user");
    assert_eq!(c.get_calendar_url("work").as_str(), "https://cal.example.com/calendars/work/");
}

#[test]
fn calendar_url_uses_the_parsed_base() {
    // The base is kept as the URL crate serializes it (a root path gets its slash).
    let c = client("https://cal.example.com");
    assert_eq!(c.get_calendar_url("home").as_str(), "https://cal.example.com/home/");
}

#[test]
fn resolve_calendar_url_falls_back_to_concatenation() {
    assert_eq!(resolve_calendar_url("https://a.example/base/", "cal", None).as_str(), "https://a.example/base/cal/");
    assert_eq!(
        resolve_calendar_url("https://a.example/base/", "cal", Some("https://joined/".to_string())).as_str(),
        "https://joined/"
    );
    assert_eq!(
        resolve_calendar_url("https://a.example/cal/", "cal", Some("https://joined/".to_string())).as_str(),
        "https://a.example/cal/"
    );
}

#[test]
fn propfind_request() {
    let c = client("https://cal.example.com/dav/");
    let r = c.calendar_exists_request("sched");
    assert_eq!(r.method, DavMethod::Propfind);
    assert_eq!(r.url.as_str(), "https://cal.example.com/dav/sched/");
    assert_eq!(r.username.as_str(), "user");
    assert_eq!(r.password.as_str(), "secret");
    assert_eq!(
        r.body.as_deref(),
        Some(r#"<?xml version="1.0"?><d:propfind xmlns:d="DAV:"><d:prop><d:displayname/></d:prop></d:propfind>"#)
    );
    assert_eq!(r.headers, vec![("Depth".to_string(), "0".to_string())]);
}

#[test]
fn calendar_exists_on_success_statuses() {
    assert!(CalDavClient::calendar_exists(200));
    assert!(CalDavClient::calendar_exists(207));
    assert!(CalDavClient::calendar_exists(299));
    assert!(!CalDavClient::calendar_exists(404));
    assert!(!CalDavClient::calendar_exists(301));
    assert!(!CalDavClient::calendar_exists(199));
}

#[test]
fn mkcalendar_request() {
    let c = client("https://cal.example.com/dav/");
    let r = c.create_calendar_request("newcal", "My Schedule");
    assert_eq!(r.method, DavMethod::Mkcalendar);
    assert_eq!(r.url.as_str(), "https://cal.example.com/dav/newcal/");
    assert!(r.headers.is_empty());
    let expected = format!(
        r#"<?xml version="1.0" encoding="UTF-8"?>
            <mkcalendar xmlns="urn:ietf:params:xml:ns:caldav" xmlns:d="DAV:">
                <d:set>
                    <d:prop>
                        <d:displayname>{}</d:displayname>
                        <c:supported-calendar-component-set xmlns:c="urn:ietf:params:xml:ns:caldav">
                            <c:comp name="VEVENT"/>
                        </c:supported-calendar-component-set>
                    </d:prop>
                </d:set>
            </mkcalendar>"#,
        "My Schedule"
    );
    assert_eq!(r.body.as_deref(), Some(expected.as_str()));
}

#[test]
fn create_calendar_outcomes() {
    let c = client("https://cal.example.com/dav/");
    for status in [200u16, 201] {
        let cal = c.create_calendar("newcal", "Shown", status).unwrap();
        assert_eq!(cal.url.as_str(), "https://cal.example.com/dav/newcal/");
        assert_eq!(cal.name.as_str(), "Shown");
    }
    match c.create_calendar("newcal", "Shown", 405) {
        Err(CalDavError::CreationNotAllowed { calendar_id }) => assert_eq!(calendar_id.as_str(), "newcal"),
        other => panic!("unexpected {:?}", other),
    }
    match c.create_calendar("newcal", "Shown", 403) {
        Err(CalDavError::Forbidden { calendar_id }) => assert_eq!(calendar_id.as_str(), "newcal"),
        other => panic!("unexpected {:?}", other),
    }
    match c.create_calendar("newcal", "Shown", 500) {
        Err(CalDavError::CreateFailed { status }) => assert_eq!(status, 500),
        other => panic!("unexpected {:?}", other),
    }
    assert!(matches!(c.create_calendar("newcal", "Shown", 204), Err(CalDavError::CreateFailed { status: 204 })));
}

#[test]
fn delete_request() {
    let c = client("https://cal.example.com/dav/");
    let r = c.delete_calendar_request("old");
    assert_eq!(r.method, DavMethod::Delete);
    assert_eq!(r.url.as_str(), "https://cal.example.com/dav/old/");
    assert!(r.body.is_none());
}

#[test]
fn event_ical_text() {
    let now = dt(2026, 3, 1, 12, 34, 56);
    let text = event_to_ical_at(&sample_event(), &now);
    let expected = "BEGIN:VCALENDAR\nVERSION:2.0\nPRODID:-//osa2cal//College Schedule//EN\nCALSCALE:GREGORIAN\nBEGIN:VEVENT\nUID:osa2cal-7-2026-03-15-1\nDTSTAMP:20260301T123456Z\nDTSTART;TZID=Europe/Moscow:20260315T090000\nDTEND;TZID=Europe/Moscow:20260315T103000\nSUMMARY:Math\\; Algebra\\, part 1\nLOCATION:My College - Room 101\nDESCRIPTION:Teacher: Dr. Smith\\nGroup ID: 7\nEND:VEVENT\nEND:VCALENDAR";
    assert_eq!(text.as_str(), expected);
}

#[test]
fn event_ical_without_optional_properties() {
    let mut e = sample_event();
    e.location = None;
    e.description = None;
    e.timezone = "Asia/Yekaterinburg".to_string();
    let text = event_to_ical_at(&e, &dt(2026, 3, 1, 0, 0, 0));
    assert!(text.ends_with("SUMMARY:Math\\; Algebra\\, part 1\nEND:VEVENT\nEND:VCALENDAR"));
    assert!(text.contains("DTSTART;TZID=Asia/Yekaterinburg:20260315T090000\n"));
    assert!(!text.contains("LOCATION:"));
    assert!(!text.contains("DESCRIPTION:"));
}

#[test]
fn event_ical_is_stamped_now() {
    let text = event_to_ical(&sample_event());
    let line = text.lines().find(|l| l.starts_with("DTSTAMP:")).unwrap();
    let stamp = &line["DTSTAMP:".len()..];
    assert_eq!(stamp.len(), 16);
    assert!(stamp.ends_with('Z'));
    let parsed = chrono::NaiveDateTime::parse_from_str(&stamp[..15], "%Y%m%dT%H%M%S").unwrap();
    let diff = chrono::Utc::now().naive_utc() - parsed;
    assert!(diff.num_seconds().abs() < 120);
}

#[test]
fn put_event_request_at_fixed_time() {
    let c = client("https://cal.example.com/dav/");
    let now = dt(2026, 3, 1, 12, 34, 56);
    let r = c.put_event_request_at("sched", &sample_event(), &now);
    assert_eq!(r.method, DavMethod::Put);
    assert_eq!(r.url.as_str(), "https://cal.example.com/dav/sched/osa2cal-osa2cal-7-2026-03-15-1.ics");
    assert_eq!(r.headers, vec![("Content-Type".to_string(), "text/calendar; charset=utf-8".to_string())]);
    assert_eq!(r.body.unwrap(), event_to_ical_at(&sample_event(), &now));
}

#[test]
fn put_event_request_now() {
    let c = client("https://cal.example.com/dav/");
    let r = c.put_event_request("sched", &sample_event());
    assert_eq!(r.url.as_str(), "https://cal.example.com/dav/sched/osa2cal-osa2cal-7-2026-03-15-1.ics");
    assert!(r.body.unwrap().contains("UID:osa2cal-7-2026-03-15-1\nDTSTAMP:"));
}

#[test]
fn put_event_outcomes() {
    assert!(CalDavClient::put_event(201).is_ok());
    assert!(CalDavClient::put_event(204).is_ok());
    assert!(matches!(CalDavClient::put_event(412), Err(CalDavError::PutFailed { status: 412 })));
}

#[test]
fn caldav_error_messages() {
    let e = CalDavError::CreationNotAllowed { calendar_id: "osa2cal".to_string() };
    assert_eq!(
        e.message().as_str(),
        "Server doesn't allow calendar creation via MKCALENDAR. Create calendar 'osa2cal' manually in web interface"
    );
    let e = CalDavError::Forbidden { calendar_id: "osa2cal".to_string() };
    assert_eq!(e.message().as_str(), "Forbidden: no permission to create calendar 'osa2cal'");
    let e = CalDavError::CreateFailed { status: 500 };
    assert_eq!(e.message().as_str(), "Failed to create calendar: HTTP 500 Internal Server Error");
    let e = CalDavError::PutFailed { status: 412 };
    assert_eq!(e.message().as_str(), "Failed to create event: HTTP 412 Precondition Failed");
    let e = CalDavError::PutFailed { status: 599 };
    assert_eq!(e.message().as_str(), "Failed to create event: HTTP 599 <unknown status code>");
    assert_eq!(e.describe("X").as_str(), "Failed to create event: HTTP X");
}

#[test]
fn invalid_url_message_is_the_parser_message() {
    match CalDavClient::new("not a url", "u", "p") {
        Err(e) => {
            assert!(matches!(e, CalDavError::InvalidUrl(_)));
            assert_eq!(e.message().as_str(), "relative URL without a base");
        }
        Ok(_) => panic!("a relative URL must be refused"),
    }
}

#[test]
fn calendar_url_applied_twice_is_unchanged() {
    let c = client("https://cal.example.com/calendars/");
    let r = c.get_calendar_url("work");
    assert_eq!(r.as_str(), "https://cal.example.com/calendars/work/");
    assert_eq!(client(r.as_str()).get_calendar_url("work"), r);
    assert_eq!(resolve_calendar_url("https://a.example/x/cal/", "cal", Some("https://other/".to_string())).as_str(), "https://a.example/x/cal/");
}

#[test]
fn stored_event_has_one_line_per_property() {
    let now = dt(2026, 3, 14, 12, 0, 0);
    let text = event_to_ical_at(&sample_event(), &now);
    assert_eq!(text.split('\n').count(), 14);
    let mut e = sample_event();
    e.location = None;
    assert_eq!(event_to_ical_at(&e, &now).split('\n').count(), 13);
    e.description = None;
    let lines: Vec<String> = event_to_ical_at(&e, &now).split('\n').map(|l| l.to_string()).collect();
    assert_eq!(lines.len(), 12);
    assert_eq!(lines[5], "UID:osa2cal-7-2026-03-15-1");
    assert_eq!(lines[6], "DTSTAMP:20260314T120000Z");
    assert_eq!(lines[11], "END:VCALENDAR");
}

#[test]
fn url_error_kinds_and_messages() {
    match CalDavClient::new("https://example.com:99999/", "u", "p") {
        Err(CalDavError::InvalidUrl(k)) => {
            assert!(matches!(k, UrlError::InvalidPort));
            assert_eq!(k.message().as_str(), "invalid port number");
        }
        _ => panic!("an out-of-range port must be refused"),
    }
    match CalDavClient::new("https://[::1/", "u", "p") {
        Err(e) => assert_eq!(e.message().as_str(), "invalid IPv6 address"),
        Ok(_) => panic!("a broken IPv6 host must be refused"),
    }
    assert_eq!(UrlError::EmptyHost.message().as_str(), "empty host");
    assert_eq!(
        UrlError::SetHostOnCannotBeABaseUrl.message().as_str(),
        "a cannot-be-a-base URL doesn\u{2019}t have a host to set"
    );
    assert_eq!(UrlError::Other("x".to_string()).message().as_str(), "x");
}
