//! The decisions of the command-line tool: which schedule requests a period
//! stands for, which settings a command needs, and the steps of a sync.
use vstd::prelude::*;
use crate::config::Config;
use crate::text::{contains_char, owned, str_eq};

verus! {

/// A week relative to the current one.
#[derive(Debug, Clone, Copy, PartialEq, Eq, Structural)]
pub enum WeekSel {
    Previous,
    Current,
    Next,
}

/// One request to the schedule API.
#[derive(Debug, Clone)]
pub enum ScheduleQuery {
    Today,
    Tomorrow,
    Week(WeekSel),
    /// A date as the user wrote it.
    Date(String),
}

/// A period the tool does not know.
#[derive(Debug, Clone)]
pub enum PeriodError {
    Unknown(String),
}

/// The message for an unknown period.
pub open spec fn period_error_text(e: PeriodError) -> Seq<char> {
    match e {
        PeriodError::Unknown(p) => "Unknown period: "@ + p@ + ". Use: today, tomorrow, week, month, all, or YYYY-MM-DD"@,
    }
}

impl PeriodError {
    /// `Unknown period: {period}. Use: today, tomorrow, week, month, all, or YYYY-MM-DD`.
    pub fn message(&self) -> (res: String)
        ensures
            res@ == period_error_text(*self),
    {
        match self {
            PeriodError::Unknown(p) => {
                let mut res = owned("Unknown period: ");
                res.append(p.as_str());
                res.append(". Use: today, tomorrow, week, month, all, or YYYY-MM-DD");
                res
            },
        }
    }
}

/// The requests a period stands for, in the order their results are joined:
/// `today`, `tomorrow`, `week` (the current week), `month` (the current and
/// the next week), `all` (previous, current and next week), any other text
/// with a `-` in it is a date; anything else is refused.
pub fn schedule_queries(period: &str) -> (res: Result<Vec<ScheduleQuery>, PeriodError>)
    ensures
        period@ == "today"@ ==> (res matches Ok(v) && v@.len() == 1 && v@[0] is Today),
        period@ == "tomorrow"@ ==> (res matches Ok(v) && v@.len() == 1 && v@[0] is Tomorrow),
        period@ == "week"@ ==> (res matches Ok(v) && v@.len() == 1 && v@[0] == ScheduleQuery::Week(WeekSel::Current)),
        period@ == "month"@ ==> (res matches Ok(v) && v@.len() == 2
            && v@[0] == ScheduleQuery::Week(WeekSel::Current)
            && v@[1] == ScheduleQuery::Week(WeekSel::Next)),
        period@ == "all"@ ==> (res matches Ok(v) && v@.len() == 3
            && v@[0] == ScheduleQuery::Week(WeekSel::Previous)
            && v@[1] == ScheduleQuery::Week(WeekSel::Current)
            && v@[2] == ScheduleQuery::Week(WeekSel::Next)),
        (period@ != "today"@ && period@ != "tomorrow"@ && period@ != "week"@ && period@ != "month"@
            && period@ != "all"@ && period@.contains('-')) ==> (res matches Ok(v) && v@.len() == 1
            && (v@[0] matches ScheduleQuery::Date(d) && d@ == period@)),
        (period@ != "today"@ && period@ != "tomorrow"@ && period@ != "week"@ && period@ != "month"@
            && period@ != "all"@ && !period@.contains('-')) ==> (res matches Err(PeriodError::Unknown(p))
            && p@ == period@),
{
    proof {
        reveal_strlit("today");
        reveal_strlit("tomorrow");
        reveal_strlit("week");
        reveal_strlit("month");
        reveal_strlit("all");
        assert("today"@.len() == 5 && "tomorrow"@.len() == 8 && "week"@.len() == 4);
        assert("month"@.len() == 5 && "all"@.len() == 3);
        assert("today"@[0] == 't' && "month"@[0] == 'm');
        assert("today"@ != "month"@);
        assert(!"today"@.contains('-'));
        assert(!"tomorrow"@.contains('-'));
        assert(!"week"@.contains('-'));
        assert(!"month"@.contains('-'));
        assert(!"all"@.contains('-'));
    }
    let mut v: Vec<ScheduleQuery> = Vec::new();
    if str_eq(period, "today") {
        v.push(ScheduleQuery::Today);
    } else if str_eq(period, "tomorrow") {
        v.push(ScheduleQuery::Tomorrow);
    } else if str_eq(period, "week") {
        v.push(ScheduleQuery::Week(WeekSel::Current));
    } else if str_eq(period, "month") {
        v.push(ScheduleQuery::Week(WeekSel::Current));
        v.push(ScheduleQuery::Week(WeekSel::Next));
    } else if str_eq(period, "all") {
        v.push(ScheduleQuery::Week(WeekSel::Previous));
        v.push(ScheduleQuery::Week(WeekSel::Current));
        v.push(ScheduleQuery::Week(WeekSel::Next));
    } else if contains_char(period, '-') {
        v.push(ScheduleQuery::Date(owned(period)));
    } else {
        return Err(PeriodError::Unknown(owned(period)));
    }
    Ok(v)
}

/// A setting that a command needs and that is not set.
#[derive(Debug, Clone, Copy, PartialEq, Eq, Structural)]
pub enum SettingsError {
    MissingApiUrl,
    MissingGroup,
    MissingCaldavUrl,
    MissingUsername,
    MissingPassword,
}

/// The message for a missing setting; the export command names the way to
/// set the API URL and the group.
pub open spec fn settings_error_text(e: SettingsError, for_export: bool) -> Seq<char> {
    match e {
        SettingsError::MissingApiUrl => if for_export {
            "API URL not configured. Run: osa2cal config --api-url <URL>"@
        } else {
            "API URL not configured"@
        },
        SettingsError::MissingGroup => if for_export {
            "Group ID not specified. Use --group or configure default"@
        } else {
            "Group ID not specified"@
        },
        SettingsError::MissingCaldavUrl => "CalDAV URL not configured"@,
        SettingsError::MissingUsername => "CalDAV username not configured"@,
        SettingsError::MissingPassword => "CalDAV password not configured"@,
    }
}

impl SettingsError {
    /// The message for this missing setting, in the export command's words
    /// where `for_export` holds.
    pub fn message(&self, for_export: bool) -> (res: String)
        ensures
            res@ == settings_error_text(*self, for_export),
    {
        match self {
            SettingsError::MissingApiUrl => if for_export {
                owned("API URL not configured. Run: osa2cal config --api-url <URL>")
            } else {
                owned("API URL not configured")
            },
            SettingsError::MissingGroup => if for_export {
                owned("Group ID not specified. Use --group or configure default")
            } else {
                owned("Group ID not specified")
            },
            SettingsError::MissingCaldavUrl => owned("CalDAV URL not configured"),
            SettingsError::MissingUsername => owned("CalDAV username not configured"),
            SettingsError::MissingPassword => owned("CalDAV password not configured"),
        }
    }
}

fn required(o: &Option<String>, missing: SettingsError) -> (res: Result<String, SettingsError>)
    ensures
        match *o {
            Some(s) => res == Ok::<String, SettingsError>(s),
            None => res == Err::<String, SettingsError>(missing),
        },
{
    match o {
        Some(s) => Ok(s.clone()),
        None => Err(missing),
    }
}

/// The API URL, which every command that talks to the schedule API needs.
pub fn api_url_setting(config: &Config) -> (res: Result<String, SettingsError>)
    ensures
        match config.api_url {
            Some(u) => res matches Ok(r) && r == u,
            None => res == Err::<String, SettingsError>(SettingsError::MissingApiUrl),
        },
{
    required(&config.api_url, SettingsError::MissingApiUrl)
}

/// Where to read a schedule from: the API URL and the group, checked in that order.
pub fn schedule_source(config: &Config) -> (res: Result<(String, u32), SettingsError>)
    ensures
        config.api_url is None ==> res == Err::<(String, u32), SettingsError>(SettingsError::MissingApiUrl),
        (config.api_url is Some && config.default_group is None) ==> res == Err::<(String, u32), SettingsError>(SettingsError::MissingGroup),
        (config.api_url is Some && config.default_group is Some) ==> (res matches Ok((u, g))
            && Some(u) == config.api_url && Some(g) == config.default_group),
{
    let api_url = required(&config.api_url, SettingsError::MissingApiUrl)?;
    match config.default_group {
        Some(g) => Ok((api_url, g)),
        None => Err(SettingsError::MissingGroup),
    }
}

/// Everything a sync needs.
#[derive(Debug, Clone)]
pub struct SyncTarget {
    pub api_url: String,
    pub group_id: u32,
    pub caldav_url: String,
    pub username: String,
    pub password: String,
    /// The calendar to fill.
    pub calendar_id: String,
}

/// The calendar a sync fills: the one named on the command line, else the
/// configured one, else `default`.
pub open spec fn sync_calendar_id(config: Config, calendar_id: Option<String>) -> Seq<char> {
    match calendar_id {
        Some(c) => c@,
        None => match config.calendar_name {
            Some(n) => n@,
            None => "default"@,
        },
    }
}

/// The settings of a sync. The API URL, the group, the CalDAV URL, the
/// username and the password are checked in that order, and the first one
/// missing is reported.
pub fn sync_target(config: &Config, calendar_id: Option<String>) -> (res: Result<SyncTarget, SettingsError>)
    ensures
        config.api_url is None ==> res matches Err(SettingsError::MissingApiUrl),
        (config.api_url is Some && config.default_group is None) ==> res matches Err(SettingsError::MissingGroup),
        (config.api_url is Some && config.default_group is Some && config.caldav_url is None) ==> res matches Err(SettingsError::MissingCaldavUrl),
        (config.api_url is Some && config.default_group is Some && config.caldav_url is Some
            && config.caldav_username is None) ==> res matches Err(SettingsError::MissingUsername),
        (config.api_url is Some && config.default_group is Some && config.caldav_url is Some
            && config.caldav_username is Some && config.caldav_password is None) ==> res matches Err(SettingsError::MissingPassword),
        res is Ok <==> (config.api_url is Some && config.default_group is Some && config.caldav_url is Some
            && config.caldav_username is Some && config.caldav_password is Some),
        res matches Ok(t) ==> {
            &&& Some(t.api_url) == config.api_url
            &&& Some(t.group_id) == config.default_group
            &&& Some(t.caldav_url) == config.caldav_url
            &&& Some(t.username) == config.caldav_username
            &&& Some(t.password) == config.caldav_password
            &&& t.calendar_id@ == sync_calendar_id(*config, calendar_id)
        },
{
    let api_url = required(&config.api_url, SettingsError::MissingApiUrl)?;
    let group_id = match config.default_group {
        Some(g) => g,
        None => {
            return Err(SettingsError::MissingGroup);
        },
    };
    let caldav_url = required(&config.caldav_url, SettingsError::MissingCaldavUrl)?;
    let username = required(&config.caldav_username, SettingsError::MissingUsername)?;
    let password = required(&config.caldav_password, SettingsError::MissingPassword)?;
    let calendar_id = match calendar_id {
        Some(c) => c,
        None => match &config.calendar_name {
            Some(n) => n.clone(),
            None => owned("default"),
        },
    };
    Ok(SyncTarget { api_url, group_id, caldav_url, username, password, calendar_id })
}

/// How a sync starts once the schedule is fetched.
#[derive(Debug, Clone, Copy, PartialEq, Eq, Structural)]
pub enum SyncStart {
    /// No day in the period: nothing to do.
    NothingToSync,
    /// Dry run: report how many days would be synced, change nothing.
    DryRun { days: usize },
    /// Go on to the calendar.
    Proceed,
}

/// How a sync starts: with no day there is nothing to do (checked before
/// connecting); a dry run stops after connecting.
pub fn sync_start(days: usize, dry_run: bool) -> (res: SyncStart)
    ensures
        days == 0 ==> res == SyncStart::NothingToSync,
        (days != 0 && dry_run) ==> res == (SyncStart::DryRun { days }),
        (days != 0 && !dry_run) ==> res == SyncStart::Proceed,
{
    if days == 0 {
        SyncStart::NothingToSync
    } else if dry_run {
        SyncStart::DryRun { days }
    } else {
        SyncStart::Proceed
    }
}

/// What to do about the target calendar.
#[derive(Debug, Clone, Copy, PartialEq, Eq, Structural)]
pub enum CalendarAction {
    /// It exists: sync into it.
    UseExisting,
    /// It does not exist and `--force` was given: try to create it.
    Create,
    /// It does not exist: stop with an error.
    Refuse,
}

/// What to do about the target calendar, given whether it exists and
/// whether `--force` was given.
pub fn calendar_action(exists: bool, force: bool) -> (res: CalendarAction)
    ensures
        exists ==> res == CalendarAction::UseExisting,
        (!exists && force) ==> res == CalendarAction::Create,
        (!exists && !force) ==> res == CalendarAction::Refuse,
{
    if exists {
        CalendarAction::UseExisting
    } else if force {
        CalendarAction::Create
    } else {
        CalendarAction::Refuse
    }
}

} // verus!
