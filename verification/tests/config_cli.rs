use osa2cal::cli::{
    api_url_setting, calendar_action, schedule_queries, schedule_source, sync_start, sync_target, CalendarAction,
    PeriodError, ScheduleQuery, SettingsError, SyncStart, WeekSel,
};
use osa2cal::config::Config;

fn full() -> Config {
    Config {
        api_url: Some("https://api.example.com".to_string()),
        default_group: Some(123),
        caldav_url: Some("https://cal.example.com/dav/".to_string()),
        caldav_username: Some("user".to_string()),
        caldav_password: Some("pw".to_string()),
        college_name: Some("My College".to_string()),
        calendar_name: Some("schedule".to_string()),
        timezone: None,
    }
}

#[test]
fn load_without_a_file_takes_password_from_environment() {
    let c = Config::load(None, Some("envpw".to_string()));
    assert!(c.api_url.is_none());
    assert_eq!(c.caldav_password.as_deref(), Some("envpw"));
    assert!(c.default_group.is_none());
    assert!(Config::load(None, None).caldav_password.is_none());
}

#[test]
fn load_takes_password_from_environment_only_when_missing() {
    let mut stored = full();
    stored.caldav_password = None;
    let c = Config::load(Some(stored), Some("envpw".to_string()));
    assert_eq!(c.caldav_password.as_deref(), Some("envpw"));
    assert_eq!(c.default_group, Some(123));
    let c = Config::load(Some(full()), Some("envpw".to_string()));
    assert_eq!(c.caldav_password.as_deref(), Some("pw"));
    let mut stored = full();
    stored.caldav_password = None;
    assert!(Config::load(Some(stored), None).caldav_password.is_none());
}

#[test]
fn save_drops_only_the_password() {
    let saved = full().save();
    assert!(saved.caldav_password.is_none());
    assert_eq!(saved.api_url.as_deref(), Some("https://api.example.com"));
    assert_eq!(saved.caldav_username.as_deref(), Some("user"));
    assert_eq!(saved.calendar_name.as_deref(), Some("schedule"));
    assert_eq!(saved.default_group, Some(123));
    let back = Config::load(Some(saved), Some("fromenv".to_string()));
    assert_eq!(back.caldav_password.as_deref(), Some("fromenv"));
    assert_eq!(back.college_name.as_deref(), Some("My College"));
}

#[test]
fn cli_overrides_and_settings() {
    let c = full().with_cli_overrides(Some("https://other".to_string()), None);
    assert_eq!(c.api_url.as_deref(), Some("https://other"));
    assert_eq!(c.default_group, Some(123));
    let c = Config::default().with_settings(None, Some("bob".to_string()), None, Some(9), None);
    assert_eq!(c.caldav_username.as_deref(), Some("bob"));
    assert_eq!(c.default_group, Some(9));
    assert!(c.caldav_url.is_none());
}

#[test]
fn defaults_for_college_and_zone() {
    assert_eq!(Config::default().college_or_default().as_str(), "College");
    assert_eq!(Config::default().timezone_or_default().as_str(), "Europe/Moscow");
    assert_eq!(full().college_or_default().as_str(), "My College");
}

#[test]
fn periods_map_to_queries() {
    assert!(matches!(schedule_queries("today").unwrap().as_slice(), [ScheduleQuery::Today]));
    assert!(matches!(schedule_queries("tomorrow").unwrap().as_slice(), [ScheduleQuery::Tomorrow]));
    assert!(matches!(schedule_queries("week").unwrap().as_slice(), [ScheduleQuery::Week(WeekSel::Current)]));
    assert!(matches!(
        schedule_queries("month").unwrap().as_slice(),
        [ScheduleQuery::Week(WeekSel::Current), ScheduleQuery::Week(WeekSel::Next)]
    ));
    assert!(matches!(
        schedule_queries("all").unwrap().as_slice(),
        [ScheduleQuery::Week(WeekSel::Previous), ScheduleQuery::Week(WeekSel::Current), ScheduleQuery::Week(WeekSel::Next)]
    ));
    match schedule_queries("2026-03-15").unwrap().as_slice() {
        [ScheduleQuery::Date(d)] => assert_eq!(d.as_str(), "2026-03-15"),
        other => panic!("unexpected {:?}", other),
    }
    match schedule_queries("yesterday") {
        Err(PeriodError::Unknown(p)) => assert_eq!(p.as_str(), "yesterday"),
        other => panic!("unexpected {:?}", other),
    }
    assert!(schedule_queries("").is_err());
    assert!(schedule_queries("Today").is_err());
}

#[test]
fn settings_required_in_order() {
    assert_eq!(api_url_setting(&Config::default()).unwrap_err(), SettingsError::MissingApiUrl);
    assert_eq!(api_url_setting(&full()).unwrap().as_str(), "https://api.example.com");
    assert_eq!(schedule_source(&Config::default()).unwrap_err(), SettingsError::MissingApiUrl);
    let mut c = full();
    c.default_group = None;
    assert_eq!(schedule_source(&c).unwrap_err(), SettingsError::MissingGroup);
    assert_eq!(schedule_source(&full()).unwrap(), ("https://api.example.com".to_string(), 123));

    let mut c = full();
    c.caldav_url = None;
    c.caldav_password = None;
    assert_eq!(sync_target(&c, None).unwrap_err(), SettingsError::MissingCaldavUrl);
    let mut c = full();
    c.caldav_username = None;
    assert_eq!(sync_target(&c, None).unwrap_err(), SettingsError::MissingUsername);
    let mut c = full();
    c.caldav_password = None;
    assert_eq!(sync_target(&c, None).unwrap_err(), SettingsError::MissingPassword);
}

#[test]
fn sync_calendar_choice() {
    let t = sync_target(&full(), Some("cli".to_string())).unwrap();
    assert_eq!(t.calendar_id.as_str(), "cli");
    assert_eq!(t.group_id, 123);
    assert_eq!(t.password.as_str(), "pw");
    assert_eq!(sync_target(&full(), None).unwrap().calendar_id.as_str(), "schedule");
    let mut c = full();
    c.calendar_name = None;
    assert_eq!(sync_target(&c, None).unwrap().calendar_id.as_str(), "default");
}

#[test]
fn sync_steps() {
    assert_eq!(sync_start(0, true), SyncStart::NothingToSync);
    assert_eq!(sync_start(3, true), SyncStart::DryRun { days: 3 });
    assert_eq!(sync_start(3, false), SyncStart::Proceed);
    assert_eq!(calendar_action(true, false), CalendarAction::UseExisting);
    assert_eq!(calendar_action(true, true), CalendarAction::UseExisting);
    assert_eq!(calendar_action(false, true), CalendarAction::Create);
    assert_eq!(calendar_action(false, false), CalendarAction::Refuse);
}

#[test]
fn unknown_period_message() {
    let e = schedule_queries("yesterday").unwrap_err();
    assert_eq!(
        e.message().as_str(),
        "Unknown period: yesterday. Use: today, tomorrow, week, month, all, or YYYY-MM-DD"
    );
}

#[test]
fn missing_setting_messages() {
    assert_eq!(
        SettingsError::MissingApiUrl.message(true).as_str(),
        "API URL not configured. Run: osa2cal config --api-url <URL>"
    );
    assert_eq!(
        SettingsError::MissingGroup.message(true).as_str(),
        "Group ID not specified. Use --group or configure default"
    );
    assert_eq!(SettingsError::MissingApiUrl.message(false).as_str(), "API URL not configured");
    assert_eq!(SettingsError::MissingGroup.message(false).as_str(), "Group ID not specified");
    assert_eq!(SettingsError::MissingCaldavUrl.message(false).as_str(), "CalDAV URL not configured");
    assert_eq!(SettingsError::MissingUsername.message(true).as_str(), "CalDAV username not configured");
    assert_eq!(SettingsError::MissingPassword.message(false).as_str(), "CalDAV password not configured");
}
