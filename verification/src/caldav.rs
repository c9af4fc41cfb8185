//! The CalDAV side of the tool: calendar URLs, the requests sent to the
//! server, what its replies mean, and the iCalendar text of one event.
use vstd::prelude::*;
use crate::datetime::{compact_text, two, utc_now, year_text, DateTime};
use url::ParseError;
use crate::text::{dec, ends_with, escape_text, is_suffix, lemma_digits_lack, lemma_pad_value, owned, pad_dec, push_char, push_escaped};

verus! {

/// A calendar collection on the server.
#[derive(Debug, Clone)]
pub struct Calendar {
    pub url: String,
    pub name: String,
}

/// One lesson as an event to store on the server.
#[derive(Debug, Clone)]
pub struct Event {
    pub uid: String,
    pub summary: String,
    pub location: Option<String>,
    pub description: Option<String>,
    pub start: DateTime,
    pub end: DateTime,
    /// The time zone identifier that `start` and `end` are local to.
    pub timezone: String,
}

/// The HTTP methods the client uses.
#[derive(Debug, Clone, Copy, PartialEq, Eq, Structural)]
pub enum DavMethod {
    Propfind,
    Mkcalendar,
    Delete,
    Put,
}

/// An HTTP request to the CalDAV server, authenticated with basic auth.
#[derive(Debug, Clone)]
pub struct DavRequest {
    pub method: DavMethod,
    pub url: String,
    pub username: String,
    pub password: String,
    pub body: Option<String>,
    /// Extra headers, as (name, value) pairs in the order they are set.
    pub headers: Vec<(String, String)>,
}

/// Why a URL does not parse: the kinds of `url::ParseError`, and `Other`
/// with the message of a kind that this list lacks.
#[derive(Debug, Clone)]
pub enum UrlError {
    EmptyHost,
    IdnaError,
    InvalidPort,
    InvalidIpv4Address,
    InvalidIpv6Address,
    InvalidDomainCharacter,
    RelativeUrlWithoutBase,
    RelativeUrlWithCannotBeABaseBase,
    SetHostOnCannotBeABaseUrl,
    Overflow,
    Other(String),
}

/// The message of each kind, as `url::ParseError` displays it.
pub open spec fn url_error_text(e: UrlError) -> Seq<char> {
    match e {
        UrlError::EmptyHost => "empty host"@,
        UrlError::IdnaError => "invalid international domain name"@,
        UrlError::InvalidPort => "invalid port number"@,
        UrlError::InvalidIpv4Address => "invalid IPv4 address"@,
        UrlError::InvalidIpv6Address => "invalid IPv6 address"@,
        UrlError::InvalidDomainCharacter => "invalid domain character"@,
        UrlError::RelativeUrlWithoutBase => "relative URL without a base"@,
        UrlError::RelativeUrlWithCannotBeABaseBase => "relative URL with a cannot-be-a-base base"@,
        UrlError::SetHostOnCannotBeABaseUrl => "a cannot-be-a-base URL doesn’t have a host to set"@,
        UrlError::Overflow => "URLs more than 4 GB are not supported"@,
        UrlError::Other(m) => m@,
    }
}

impl UrlError {
    /// The message of this kind, as `url::ParseError` displays it.
    pub fn message(&self) -> (res: String)
        ensures
            res@ == url_error_text(*self),
    {
        match self {
            UrlError::EmptyHost => owned("empty host"),
            UrlError::IdnaError => owned("invalid international domain name"),
            UrlError::InvalidPort => owned("invalid port number"),
            UrlError::InvalidIpv4Address => owned("invalid IPv4 address"),
            UrlError::InvalidIpv6Address => owned("invalid IPv6 address"),
            UrlError::InvalidDomainCharacter => owned("invalid domain character"),
            UrlError::RelativeUrlWithoutBase => owned("relative URL without a base"),
            UrlError::RelativeUrlWithCannotBeABaseBase => owned("relative URL with a cannot-be-a-base base"),
            UrlError::SetHostOnCannotBeABaseUrl => owned("a cannot-be-a-base URL doesn’t have a host to set"),
            UrlError::Overflow => owned("URLs more than 4 GB are not supported"),
            UrlError::Other(m) => m.clone(),
        }
    }
}

/// What can go wrong on the CalDAV side.
#[derive(Debug)]
pub enum CalDavError {
    /// The server URL does not parse.
    InvalidUrl(UrlError),
    /// The server answered MKCALENDAR with 405: creation is not allowed.
    CreationNotAllowed { calendar_id: String },
    /// The server answered MKCALENDAR with 403.
    Forbidden { calendar_id: String },
    /// MKCALENDAR got another status than 200, 201, 403 or 405.
    CreateFailed { status: u16 },
    /// PUT of an event got a status outside 200..=299.
    PutFailed { status: u16 },
}

/// The reason phrase that `http::StatusCode` displays after a status code:
/// its canonical reason, or `<unknown status code>` where it has none.
pub uninterp spec fn http_status_reason(status: u16) -> Seq<char>;

/// The status as `http::StatusCode` displays it: the code, a space and the
/// reason phrase.
#[verifier::external_body]
fn status_display(status: u16) -> (res: String)
    requires
        100 <= status <= 999,
    ensures
        res@ == dec(status as nat) + " "@ + http_status_reason(status),
{
    reqwest::StatusCode::from_u16(status).unwrap().to_string()
}

/// The message for a CalDAV error, given `detail`, the displayed HTTP status
/// for `CreateFailed` and `PutFailed`.
pub open spec fn caldav_error_text(e: CalDavError, detail: Seq<char>) -> Seq<char> {
    match e {
        CalDavError::InvalidUrl(k) => url_error_text(k),
        CalDavError::CreationNotAllowed { calendar_id } => "Server doesn't allow calendar creation via MKCALENDAR. Create calendar '"@
            + calendar_id@ + "' manually in web interface"@,
        CalDavError::Forbidden { calendar_id } => "Forbidden: no permission to create calendar '"@ + calendar_id@ + "'"@,
        CalDavError::CreateFailed { .. } => "Failed to create calendar: HTTP "@ + detail,
        CalDavError::PutFailed { .. } => "Failed to create event: HTTP "@ + detail,
    }
}

/// The HTTP status an error carries is one a server can send (`100..=999`).
pub open spec fn status_in_range(e: CalDavError) -> bool {
    match e {
        CalDavError::CreateFailed { status } => 100 <= status <= 999,
        CalDavError::PutFailed { status } => 100 <= status <= 999,
        _ => true,
    }
}

/// The displayed HTTP status an error carries, empty for the others.
pub open spec fn status_detail(e: CalDavError) -> Seq<char> {
    match e {
        CalDavError::CreateFailed { status } => dec(status as nat) + " "@ + http_status_reason(status),
        CalDavError::PutFailed { status } => dec(status as nat) + " "@ + http_status_reason(status),
        _ => Seq::empty(),
    }
}

impl CalDavError {
    /// The message for this error, with `detail` as the text of what it
    /// carries (see `caldav_error_text`).
    pub fn describe(&self, detail: &str) -> (res: String)
        ensures
            res@ == caldav_error_text(*self, detail@),
    {
        match self {
            CalDavError::InvalidUrl(k) => k.message(),
            CalDavError::CreationNotAllowed { calendar_id } => {
                let mut res = owned("Server doesn't allow calendar creation via MKCALENDAR. Create calendar '");
                res.append(calendar_id.as_str());
                res.append("' manually in web interface");
                res
            },
            CalDavError::Forbidden { calendar_id } => {
                let mut res = owned("Forbidden: no permission to create calendar '");
                res.append(calendar_id.as_str());
                res.append("'");
                res
            },
            CalDavError::CreateFailed { .. } => {
                let mut res = owned("Failed to create calendar: HTTP ");
                res.append(detail);
                res
            },
            CalDavError::PutFailed { .. } => {
                let mut res = owned("Failed to create event: HTTP ");
                res.append(detail);
                res
            },
        }
    }

    /// The message for this error: for an HTTP status, the status as
    /// `http::StatusCode` displays it (`Failed to create event: HTTP 500
    /// Internal Server Error`); for a URL that does not parse, the URL
    /// parser's message for its kind.
    pub fn message(&self) -> (res: String)
        requires
            status_in_range(*self),
        ensures
            res@ == caldav_error_text(*self, status_detail(*self)),
    {
        match self {
            CalDavError::CreateFailed { status } => {
                let detail = status_display(*status);
                self.describe(detail.as_str())
            },
            CalDavError::PutFailed { status } => {
                let detail = status_display(*status);
                self.describe(detail.as_str())
            },
            _ => self.describe(""),
        }
    }
}

/// The serialization of the URL that `url::Url::parse` makes of `input`,
/// or `None` where it refuses the input.
pub uninterp spec fn url_parse_serialization(input: Seq<char>) -> Option<Seq<char>>;

/// The serialization of `url::Url::parse(base)` joined with `input` by
/// `url::Url::join`, or `None` where either step fails.
pub uninterp spec fn url_join_serialization(base: Seq<char>, input: Seq<char>) -> Option<Seq<char>>;

/// Parses an absolute URL with `url::Url::parse` and returns its serialization,
/// or the kind of `url::ParseError` (a kind this version of `url` does not
/// list carries its message). The claim: the result is `Ok` exactly when the
/// name above has a value, and then holds that value; which kind an error is,
/// is not stated.
#[verifier::external_body]
fn parse_url(input: &str) -> (res: Result<String, UrlError>)
    ensures
        match res {
            Ok(s) => url_parse_serialization(input@) == Some(s@),
            Err(_) => url_parse_serialization(input@) is None,
        },
{
    match url::Url::parse(input) {
        Ok(u) => Ok(u.into()),
        Err(ParseError::EmptyHost) => Err(UrlError::EmptyHost),
        Err(ParseError::IdnaError) => Err(UrlError::IdnaError),
        Err(ParseError::InvalidPort) => Err(UrlError::InvalidPort),
        Err(ParseError::InvalidIpv4Address) => Err(UrlError::InvalidIpv4Address),
        Err(ParseError::InvalidIpv6Address) => Err(UrlError::InvalidIpv6Address),
        Err(ParseError::InvalidDomainCharacter) => Err(UrlError::InvalidDomainCharacter),
        Err(ParseError::RelativeUrlWithoutBase) => Err(UrlError::RelativeUrlWithoutBase),
        Err(ParseError::RelativeUrlWithCannotBeABaseBase) => Err(UrlError::RelativeUrlWithCannotBeABaseBase),
        Err(ParseError::SetHostOnCannotBeABaseUrl) => Err(UrlError::SetHostOnCannotBeABaseUrl),
        Err(ParseError::Overflow) => Err(UrlError::Overflow),
        Err(e) => Err(UrlError::Other(e.to_string())),
    }
}

/// Resolves `input` against the URL `base` with `url::Url::join` (after
/// turning `base` back into a `url::Url` with `url::Url::parse`) and returns
/// the serialization. The claim: the result is the name above.
#[verifier::external_body]
fn join_url(base: &str, input: &str) -> (res: Option<String>)
    ensures
        match res {
            Some(s) => url_join_serialization(base@, input@) == Some(s@),
            None => url_join_serialization(base@, input@) is None,
        },
{
    match url::Url::parse(base) {
        Ok(u) => match u.join(input) {
            Ok(j) => Some(j.into()),
            Err(_) => None,
        },
        Err(_) => None,
    }
}

/// The URL of calendar `id` under the base URL `base`, given what joining
/// `id/` onto the base gives (`joined`): the base itself when it already ends
/// with `id/` or `id`; otherwise the joined URL, or where the join fails the
/// base followed by `id/`.
pub open spec fn calendar_url_with(base: Seq<char>, id: Seq<char>, joined: Option<Seq<char>>) -> Seq<char> {
    if is_suffix(id.push('/'), base) || is_suffix(id, base) {
        base
    } else {
        match joined {
            Some(j) => j,
            None => base + id.push('/'),
        }
    }
}

/// The URL of calendar `id` under the base URL `base`.
pub open spec fn calendar_url(base: Seq<char>, id: Seq<char>) -> Seq<char> {
    calendar_url_with(base, id, url_join_serialization(base, id.push('/')))
}

/// Whether the base URL already ends with `id/` or `id`.
fn names_calendar(base: &str, slashed: &str, calendar_id: &str) -> (res: bool)
    requires
        slashed@ == calendar_id@.push('/'),
    ensures
        res == (is_suffix(calendar_id@.push('/'), base@) || is_suffix(calendar_id@, base@)),
{
    ends_with(base, slashed) || ends_with(base, calendar_id)
}

/// The joined URL, or where the join failed the base followed by `id/`.
fn joined_or_appended(base: &str, slashed: &str, joined: Option<String>) -> (res: String)
    ensures
        res@ == match joined {
            Some(j) => j@,
            None => base@ + slashed@,
        },
{
    match joined {
        Some(j) => j,
        None => {
            let mut s = owned(base);
            s.append(slashed);
            s
        },
    }
}

/// `calendar_url_with` on concrete values: the decision that follows the join.
pub fn resolve_calendar_url(base: &str, calendar_id: &str, joined: Option<String>) -> (res: String)
    ensures
        res@ == calendar_url_with(base@, calendar_id@, match joined {
            Some(j) => Some(j@),
            None => None,
        }),
{
    let mut slashed = owned(calendar_id);
    push_char(&mut slashed, '/');
    if names_calendar(base, slashed.as_str(), calendar_id) {
        owned(base)
    } else {
        joined_or_appended(base, slashed.as_str(), joined)
    }
}

/// The body of the PROPFIND request that asks for a calendar's display name.
pub open spec fn propfind_body() -> Seq<char> {
    "<?xml version=\"1.0\"?><d:propfind xmlns:d=\"DAV:\"><d:prop><d:displayname/></d:prop></d:propfind>"@
}

/// The body of the MKCALENDAR request for a calendar shown as `name`.
pub open spec fn mkcalendar_body(name: Seq<char>) -> Seq<char> {
    "<?xml version=\"1.0\" encoding=\"UTF-8\"?>\n            <mkcalendar xmlns=\"urn:ietf:params:xml:ns:caldav\" xmlns:d=\"DAV:\">\n                <d:set>\n                    <d:prop>\n                        <d:displayname>"@ + name + "</d:displayname>\n                        <c:supported-calendar-component-set xmlns:c=\"urn:ietf:params:xml:ns:caldav\">\n                            <c:comp name=\"VEVENT\"/>\n                        </c:supported-calendar-component-set>\n                    </d:prop>\n                </d:set>\n            </mkcalendar>"@
}

/// The iCalendar text stored for `e`, stamped at `now` (UTC).
pub open spec fn event_ical(e: Event, now: DateTime) -> Seq<char> {
    "BEGIN:VCALENDAR\nVERSION:2.0\nPRODID:-//osa2cal//College Schedule//EN\nCALSCALE:GREGORIAN\nBEGIN:VEVENT\nUID:"@
        + e.uid@ + "\nDTSTAMP:"@ + compact_text(now) + "Z"@
        + "\nDTSTART;TZID="@ + e.timezone@ + ":"@ + compact_text(e.start)
        + "\nDTEND;TZID="@ + e.timezone@ + ":"@ + compact_text(e.end)
        + "\nSUMMARY:"@ + escape_text(e.summary@) + "\n"@
        + match e.location {
            Some(l) => "LOCATION:"@ + escape_text(l@) + "\n"@,
            None => Seq::<char>::empty(),
        }
        + match e.description {
            Some(d) => "DESCRIPTION:"@ + escape_text(d@) + "\n"@,
            None => Seq::<char>::empty(),
        }
        + "END:VEVENT\nEND:VCALENDAR"@
}

/// Escapes text for an iCalendar property value: backslash, semicolon and
/// comma get a leading backslash and a line feed becomes `\n`.
pub fn escape_ical(text: &str) -> (res: String)
    ensures
        res@ == escape_text(text@),
        !res@.contains('\n'),
{
    let mut s = String::new();
    push_escaped(&mut s, text);
    assert(s@ =~= escape_text(text@));
    proof { lemma_escape_has_no_line_feed(text@); }
    s
}

/// A base URL that already ends with the calendar id, with or without a
/// trailing slash, is that calendar's URL as it stands: applying the id
/// again changes nothing, whatever the join would give.
pub proof fn lemma_calendar_url_keeps_named_base(base: Seq<char>, id: Seq<char>)
    requires
        is_suffix(id.push('/'), base) || is_suffix(id, base),
    ensures
        calendar_url(base, id) == base,
        forall|joined: Option<Seq<char>>| #[trigger] calendar_url_with(base, id, joined) == base,
{
}

/// Where the join fails, the calendar's URL ends with the id and a slash, so
/// it names the calendar.
pub proof fn lemma_unjoined_calendar_url_names_calendar(base: Seq<char>, id: Seq<char>)
    ensures
        is_suffix(id.push('/'), calendar_url_with(base, id, None)) || is_suffix(id, calendar_url_with(base, id, None)),
{
    let r = calendar_url_with(base, id, None);
    if !(is_suffix(id.push('/'), base) || is_suffix(id, base)) {
        assert(r.subrange(r.len() - id.push('/').len(), r.len() as int) =~= id.push('/'));
    }
}

/// An escaped text value never holds a line feed, so it stays on its line.
pub proof fn lemma_escape_has_no_line_feed(s: Seq<char>)
    ensures
        !escape_text(s).contains('\n'),
    decreases s.len(),
{
    if s.len() > 0 {
        lemma_escape_has_no_line_feed(s.drop_first());
        let e = crate::text::escape_char(s[0]);
        let r = escape_text(s.drop_first());
        assert(escape_text(s) == e + r);
        if (e + r).contains('\n') {
            let k = choose|k: int| 0 <= k < (e + r).len() && (e + r)[k] == '\n';
            if k < e.len() {
                assert(e[k] == '\n');
            } else {
                assert(r[k - e.len()] == '\n');
            }
        }
    }
}

/// The iCalendar text of `event` stamped at `now`.
pub fn event_to_ical_at(event: &Event, now: &DateTime) -> (res: String)
    ensures
        res@ == event_ical(*event, *now),
{
    let mut s = String::new();
    s.append("BEGIN:VCALENDAR\nVERSION:2.0\nPRODID:-//osa2cal//College Schedule//EN\nCALSCALE:GREGORIAN\nBEGIN:VEVENT\nUID:");
    s.append(event.uid.as_str());
    s.append("\nDTSTAMP:");
    now.push_compact(&mut s);
    s.append("Z");
    s.append("\nDTSTART;TZID=");
    s.append(event.timezone.as_str());
    s.append(":");
    event.start.push_compact(&mut s);
    s.append("\nDTEND;TZID=");
    s.append(event.timezone.as_str());
    s.append(":");
    event.end.push_compact(&mut s);
    s.append("\nSUMMARY:");
    push_escaped(&mut s, event.summary.as_str());
    s.append("\n");
    match &event.location {
        Some(l) => {
            s.append("LOCATION:");
            push_escaped(&mut s, l.as_str());
            s.append("\n");
        },
        None => {},
    }
    match &event.description {
        Some(d) => {
            s.append("DESCRIPTION:");
            push_escaped(&mut s, d.as_str());
            s.append("\n");
        },
        None => {},
    }
    s.append("END:VEVENT\nEND:VCALENDAR");
    assert(s@ =~= event_ical(*event, *now));
    s
}

/// The iCalendar text of `event`, stamped with the current time.
pub fn event_to_ical(event: &Event) -> (res: String)
    ensures
        exists|now: DateTime| now.valid() && res@ == event_ical(*event, now),
{
    let now = utc_now();
    event_to_ical_at(event, &now)
}

/// A client for one CalDAV server account.
pub struct CalDavClient {
    base_url: String,
    username: String,
    password: String,
}

impl CalDavClient {
    /// The serialization of the server's base URL.
    pub closed spec fn base(&self) -> Seq<char> {
        self.base_url@
    }

    pub closed spec fn user(&self) -> Seq<char> {
        self.username@
    }

    pub closed spec fn pass(&self) -> Seq<char> {
        self.password@
    }

    /// A client for the server at `base_url`; fails exactly when the URL
    /// does not parse.
    pub fn new(base_url: &str, username: &str, password: &str) -> (res: Result<CalDavClient, CalDavError>)
        ensures
            match res {
                Ok(c) => {
                    &&& url_parse_serialization(base_url@) == Some(c.base())
                    &&& c.user() == username@
                    &&& c.pass() == password@
                },
                Err(e) => url_parse_serialization(base_url@) is None && e is InvalidUrl,
            },
    {
        match parse_url(base_url) {
            Ok(u) => Ok(CalDavClient { base_url: u, username: owned(username), password: owned(password) }),
            Err(e) => Err(CalDavError::InvalidUrl(e)),
        }
    }

    /// The URL of the calendar `calendar_id` on this server.
    pub fn get_calendar_url(&self, calendar_id: &str) -> (res: String)
        ensures
            res@ == calendar_url(self.base(), calendar_id@),
    {
        let base = self.base_url.as_str();
        let mut slashed = owned(calendar_id);
        push_char(&mut slashed, '/');
        let joined = join_url(base, slashed.as_str());
        resolve_calendar_url(base, calendar_id, joined)
    }

    fn request(&self, method: DavMethod, url: String, body: Option<String>) -> (res: DavRequest)
        ensures
            res.method == method,
            res.url == url,
            res.username@ == self.user(),
            res.password@ == self.pass(),
            res.body == body,
            res.headers@.len() == 0,
    {
        DavRequest {
            method,
            url,
            username: self.username.clone(),
            password: self.password.clone(),
            body,
            headers: Vec::new(),
        }
    }

    /// The PROPFIND request (depth 0) that tells whether calendar
    /// `calendar_id` exists.
    pub fn calendar_exists_request(&self, calendar_id: &str) -> (res: DavRequest)
        ensures
            res.method == DavMethod::Propfind,
            res.url@ == calendar_url(self.base(), calendar_id@),
            res.username@ == self.user(),
            res.password@ == self.pass(),
            res.body matches Some(b) && b@ == propfind_body(),
            res.headers@.len() == 1,
            res.headers@[0].0@ == "Depth"@,
            res.headers@[0].1@ == "0"@,
    {
        let url = self.get_calendar_url(calendar_id);
        let body = owned("<?xml version=\"1.0\"?><d:propfind xmlns:d=\"DAV:\"><d:prop><d:displayname/></d:prop></d:propfind>");
        let mut req = self.request(DavMethod::Propfind, url, Some(body));
        req.headers.push((owned("Depth"), owned("0")));
        req
    }

    /// Whether the calendar exists, given the status of the PROPFIND reply:
    /// any success status (200 to 299).
    pub fn calendar_exists(status: u16) -> (res: bool)
        ensures
            res == (200 <= status <= 299),
    {
        200 <= status && status <= 299
    }

    /// The MKCALENDAR request that creates calendar `calendar_id` shown as
    /// `display_name`.
    pub fn create_calendar_request(&self, calendar_id: &str, display_name: &str) -> (res: DavRequest)
        ensures
            res.method == DavMethod::Mkcalendar,
            res.url@ == calendar_url(self.base(), calendar_id@),
            res.username@ == self.user(),
            res.password@ == self.pass(),
            res.body matches Some(b) && b@ == mkcalendar_body(display_name@),
            res.headers@.len() == 0,
    {
        let url = self.get_calendar_url(calendar_id);
        let mut body = owned("<?xml version=\"1.0\" encoding=\"UTF-8\"?>\n            <mkcalendar xmlns=\"urn:ietf:params:xml:ns:caldav\" xmlns:d=\"DAV:\">\n                <d:set>\n                    <d:prop>\n                        <d:displayname>");
        body.append(display_name);
        body.append("</d:displayname>\n                        <c:supported-calendar-component-set xmlns:c=\"urn:ietf:params:xml:ns:caldav\">\n                            <c:comp name=\"VEVENT\"/>\n                        </c:supported-calendar-component-set>\n                    </d:prop>\n                </d:set>\n            </mkcalendar>");
        self.request(DavMethod::Mkcalendar, url, Some(body))
    }

    /// What the MKCALENDAR reply with `status` means: 200 or 201 gives the
    /// new calendar, 405 and 403 their own errors, anything else a failure
    /// carrying the status.
    pub fn create_calendar(&self, calendar_id: &str, display_name: &str, status: u16) -> (res: Result<Calendar, CalDavError>)
        ensures
            (status == 200 || status == 201) <==> res is Ok,
            res matches Ok(c) ==> (c.url@ == calendar_url(self.base(), calendar_id@) && c.name@ == display_name@),
            status == 405 ==> (res matches Err(CalDavError::CreationNotAllowed { calendar_id: id }) && id@ == calendar_id@),
            status == 403 ==> (res matches Err(CalDavError::Forbidden { calendar_id: id }) && id@ == calendar_id@),
            (status != 200 && status != 201 && status != 403 && status != 405) ==> (res matches Err(CalDavError::CreateFailed { status: s }) && s == status),
    {
        if status == 200 || status == 201 {
            Ok(Calendar { url: self.get_calendar_url(calendar_id), name: owned(display_name) })
        } else if status == 405 {
            Err(CalDavError::CreationNotAllowed { calendar_id: owned(calendar_id) })
        } else if status == 403 {
            Err(CalDavError::Forbidden { calendar_id: owned(calendar_id) })
        } else {
            Err(CalDavError::CreateFailed { status })
        }
    }

    /// The DELETE request for calendar `calendar_id`.
    pub fn delete_calendar_request(&self, calendar_id: &str) -> (res: DavRequest)
        ensures
            res.method == DavMethod::Delete,
            res.url@ == calendar_url(self.base(), calendar_id@),
            res.username@ == self.user(),
            res.password@ == self.pass(),
            res.body is None,
            res.headers@.len() == 0,
    {
        let url = self.get_calendar_url(calendar_id);
        self.request(DavMethod::Delete, url, None)
    }

    /// The PUT request that stores `event` in calendar `calendar_id`, its
    /// body stamped at `now`.
    pub fn put_event_request_at(&self, calendar_id: &str, event: &Event, now: &DateTime) -> (res: DavRequest)
        ensures
            res.method == DavMethod::Put,
            res.url@ == calendar_url(self.base(), calendar_id@) + "osa2cal-"@ + event.uid@ + ".ics"@,
            res.username@ == self.user(),
            res.password@ == self.pass(),
            res.body matches Some(b) && b@ == event_ical(*event, *now),
            res.headers@.len() == 1,
            res.headers@[0].0@ == "Content-Type"@,
            res.headers@[0].1@ == "text/calendar; charset=utf-8"@,
    {
        let mut url = self.get_calendar_url(calendar_id);
        url.append("osa2cal-");
        url.append(event.uid.as_str());
        url.append(".ics");
        let body = event_to_ical_at(event, now);
        let mut req = self.request(DavMethod::Put, url, Some(body));
        req.headers.push((owned("Content-Type"), owned("text/calendar; charset=utf-8")));
        req
    }

    /// The PUT request that stores `event`, stamped with the current time.
    pub fn put_event_request(&self, calendar_id: &str, event: &Event) -> (res: DavRequest)
        ensures
            exists|now: DateTime| {
                &&& now.valid()
                &&& res.method == DavMethod::Put
                &&& res.url@ == calendar_url(self.base(), calendar_id@) + "osa2cal-"@ + event.uid@ + ".ics"@
                &&& res.username@ == self.user()
                &&& res.password@ == self.pass()
                &&& res.body matches Some(b) && b@ == event_ical(*event, now)
                &&& res.headers@.len() == 1
                &&& res.headers@[0].0@ == "Content-Type"@
                &&& res.headers@[0].1@ == "text/calendar; charset=utf-8"@
            },
    {
        let now = utc_now();
        self.put_event_request_at(calendar_id, event, &now)
    }

    /// What the PUT reply with `status` means: stored on any success status.
    pub fn put_event(status: u16) -> (res: Result<(), CalDavError>)
        ensures
            res is Ok <==> 200 <= status <= 299,
            res matches Err(e) ==> e == (CalDavError::PutFailed { status }),
    {
        if 200 <= status && status <= 299 {
            Ok(())
        } else {
            Err(CalDavError::PutFailed { status })
        }
    }
}

} // verus!

verus! {

/// `lines` joined by line feeds.
pub open spec fn joined_lines(lines: Seq<Seq<char>>) -> Seq<char>
    decreases lines.len(),
{
    if lines.len() == 0 {
        Seq::empty()
    } else if lines.len() == 1 {
        lines[0]
    } else {
        joined_lines(lines.drop_last()) + seq!['\n'] + lines.last()
    }
}

/// The lines of the stored text of `e` stamped at `now`, one per property.
pub open spec fn event_ical_lines(e: Event, now: DateTime) -> Seq<Seq<char>> {
    seq![
        "BEGIN:VCALENDAR"@,
        "VERSION:2.0"@,
        "PRODID:-//osa2cal//College Schedule//EN"@,
        "CALSCALE:GREGORIAN"@,
        "BEGIN:VEVENT"@,
        "UID:"@ + e.uid@,
        "DTSTAMP:"@ + compact_text(now) + "Z"@,
        "DTSTART;TZID="@ + e.timezone@ + ":"@ + compact_text(e.start),
        "DTEND;TZID="@ + e.timezone@ + ":"@ + compact_text(e.end),
        "SUMMARY:"@ + escape_text(e.summary@),
    ] + match e.location {
        Some(l) => seq!["LOCATION:"@ + escape_text(l@)],
        None => Seq::empty(),
    } + match e.description {
        Some(d) => seq!["DESCRIPTION:"@ + escape_text(d@)],
        None => Seq::empty(),
    } + seq!["END:VEVENT"@, "END:VCALENDAR"@]
}

/// The stored text of an event is its property lines joined by line feeds:
/// twelve lines, one more with a location and one more with a description.
/// Where the UID and the time zone hold no line feed, no line does, so each
/// property stands on a line of its own.
pub proof fn lemma_event_ical_lines(e: Event, now: DateTime)
    ensures
        event_ical(e, now) == joined_lines(event_ical_lines(e, now)),
        event_ical_lines(e, now).len() == 12 + (if e.location is Some { 1int } else { 0 }) + (if e.description is Some { 1int } else { 0 }),
        (!e.uid@.contains('\n') && !e.timezone@.contains('\n')) ==> forall|i: int|
            0 <= i < event_ical_lines(e, now).len() ==> !(#[trigger] event_ical_lines(e, now)[i]).contains('\n'),
{
    let lines = event_ical_lines(e, now);
    let nl = seq!['\n'];
    lemma_event_ical_head(e, now);
    reveal_strlit("\n");
    reveal_strlit("END:VEVENT\nEND:VCALENDAR");
    reveal_strlit("END:VEVENT");
    reveal_strlit("END:VCALENDAR");
    assert("\n"@ =~= nl);
    assert("END:VEVENT\nEND:VCALENDAR"@ =~= "END:VEVENT"@ + nl + "END:VCALENDAR"@);
    let head = event_ical_head(e, now);
    let end_part = "END:VEVENT"@ + nl + "END:VCALENDAR"@;
    lemma_joined_step(lines, 10);
    lemma_joined_step(lines, 11);
    match (e.location, e.description) {
        (Some(l), Some(d)) => {
            let ll = "LOCATION:"@ + escape_text(l@);
            let dl = "DESCRIPTION:"@ + escape_text(d@);
            assert(lines[10] == ll && lines[11] == dl && lines[12] == "END:VEVENT"@ && lines[13] == "END:VCALENDAR"@);
            lemma_joined_step(lines, 12);
            lemma_joined_step(lines, 13);
            assert(lines.take(14) =~= lines);
            assert(event_ical(e, now) =~= head + nl + ll + nl + dl + nl + end_part);
            assert(joined_lines(lines) =~= head + nl + ll + nl + dl + nl + end_part);
        },
        (Some(l), None) => {
            let ll = "LOCATION:"@ + escape_text(l@);
            assert(lines[10] == ll && lines[11] == "END:VEVENT"@ && lines[12] == "END:VCALENDAR"@);
            lemma_joined_step(lines, 12);
            assert(lines.take(13) =~= lines);
            assert(event_ical(e, now) =~= head + nl + ll + nl + end_part);
            assert(joined_lines(lines) =~= head + nl + ll + nl + end_part);
        },
        (None, Some(d)) => {
            let dl = "DESCRIPTION:"@ + escape_text(d@);
            assert(lines[10] == dl && lines[11] == "END:VEVENT"@ && lines[12] == "END:VCALENDAR"@);
            lemma_joined_step(lines, 12);
            assert(lines.take(13) =~= lines);
            assert(event_ical(e, now) =~= head + nl + dl + nl + end_part);
            assert(joined_lines(lines) =~= head + nl + dl + nl + end_part);
        },
        (None, None) => {
            assert(lines[10] == "END:VEVENT"@ && lines[11] == "END:VCALENDAR"@);
            assert(lines.take(12) =~= lines);
            assert(event_ical(e, now) =~= head + nl + end_part);
            assert(joined_lines(lines) =~= head + nl + end_part);
        },
    }
    if !e.uid@.contains('\n') && !e.timezone@.contains('\n') {
        lemma_event_ical_lines_clean(e, now);
    }
}

/// The first ten lines of the stored text, joined.
spec fn event_ical_head(e: Event, now: DateTime) -> Seq<char> {
    "BEGIN:VCALENDAR\nVERSION:2.0\nPRODID:-//osa2cal//College Schedule//EN\nCALSCALE:GREGORIAN\nBEGIN:VEVENT\nUID:"@
        + e.uid@ + "\nDTSTAMP:"@ + compact_text(now) + "Z"@
        + "\nDTSTART;TZID="@ + e.timezone@ + ":"@ + compact_text(e.start)
        + "\nDTEND;TZID="@ + e.timezone@ + ":"@ + compact_text(e.end)
        + "\nSUMMARY:"@ + escape_text(e.summary@)
}

proof fn lemma_joined_step(lines: Seq<Seq<char>>, n: int)
    requires
        1 <= n < lines.len(),
    ensures
        joined_lines(lines.take(n + 1)) == joined_lines(lines.take(n)) + seq!['\n'] + lines[n],
{
    assert(lines.take(n + 1).drop_last() =~= lines.take(n));
}

proof fn lemma_head_literals()
    ensures
        "BEGIN:VCALENDAR\nVERSION:2.0\nPRODID:-//osa2cal//College Schedule//EN\nCALSCALE:GREGORIAN\nBEGIN:VEVENT\nUID:"@
            == "BEGIN:VCALENDAR"@ + seq!['\n'] + "VERSION:2.0"@ + seq!['\n'] + "PRODID:-//osa2cal//College Schedule//EN"@
            + seq!['\n'] + "CALSCALE:GREGORIAN"@ + seq!['\n'] + "BEGIN:VEVENT"@ + seq!['\n'] + "UID:"@,
        "\nDTSTAMP:"@ == seq!['\n'] + "DTSTAMP:"@,
        "\nDTSTART;TZID="@ == seq!['\n'] + "DTSTART;TZID="@,
        "\nDTEND;TZID="@ == seq!['\n'] + "DTEND;TZID="@,
        "\nSUMMARY:"@ == seq!['\n'] + "SUMMARY:"@,
{
    reveal_strlit("BEGIN:VCALENDAR\nVERSION:2.0\nPRODID:-//osa2cal//College Schedule//EN\nCALSCALE:GREGORIAN\nBEGIN:VEVENT\nUID:");
    reveal_strlit("BEGIN:VCALENDAR");
    reveal_strlit("VERSION:2.0");
    reveal_strlit("PRODID:-//osa2cal//College Schedule//EN");
    reveal_strlit("CALSCALE:GREGORIAN");
    reveal_strlit("BEGIN:VEVENT");
    reveal_strlit("UID:");
    reveal_strlit("\nDTSTAMP:");
    reveal_strlit("DTSTAMP:");
    reveal_strlit("\nDTSTART;TZID=");
    reveal_strlit("DTSTART;TZID=");
    reveal_strlit("\nDTEND;TZID=");
    reveal_strlit("DTEND;TZID=");
    reveal_strlit("\nSUMMARY:");
    reveal_strlit("SUMMARY:");
    assert("BEGIN:VCALENDAR\nVERSION:2.0\nPRODID:-//osa2cal//College Schedule//EN\nCALSCALE:GREGORIAN\nBEGIN:VEVENT\nUID:"@
        =~= "BEGIN:VCALENDAR"@ + seq!['\n'] + "VERSION:2.0"@ + seq!['\n'] + "PRODID:-//osa2cal//College Schedule//EN"@
        + seq!['\n'] + "CALSCALE:GREGORIAN"@ + seq!['\n'] + "BEGIN:VEVENT"@ + seq!['\n'] + "UID:"@);
    assert("\nDTSTAMP:"@ =~= seq!['\n'] + "DTSTAMP:"@);
    assert("\nDTSTART;TZID="@ =~= seq!['\n'] + "DTSTART;TZID="@);
    assert("\nDTEND;TZID="@ =~= seq!['\n'] + "DTEND;TZID="@);
    assert("\nSUMMARY:"@ =~= seq!['\n'] + "SUMMARY:"@);
}

#[verifier::rlimit(100)]
proof fn lemma_event_ical_head(e: Event, now: DateTime)
    ensures
        joined_lines(event_ical_lines(e, now).take(10)) == event_ical_head(e, now),
{
    let lines = event_ical_lines(e, now);
    let nl = seq!['\n'];
    let h: Seq<Seq<char>> = seq![
        "BEGIN:VCALENDAR"@,
        "VERSION:2.0"@,
        "PRODID:-//osa2cal//College Schedule//EN"@,
        "CALSCALE:GREGORIAN"@,
        "BEGIN:VEVENT"@,
        "UID:"@ + e.uid@,
        "DTSTAMP:"@ + compact_text(now) + "Z"@,
        "DTSTART;TZID="@ + e.timezone@ + ":"@ + compact_text(e.start),
        "DTEND;TZID="@ + e.timezone@ + ":"@ + compact_text(e.end),
        "SUMMARY:"@ + escape_text(e.summary@),
    ];
    assert(lines.take(10) =~= h);
    assert(h.take(1).len() == 1);
    assert(joined_lines(h.take(1)) == h[0]);
    lemma_joined_step(h, 1);
    lemma_joined_step(h, 2);
    lemma_joined_step(h, 3);
    lemma_joined_step(h, 4);
    lemma_joined_step(h, 5);
    lemma_joined_step(h, 6);
    lemma_joined_step(h, 7);
    lemma_joined_step(h, 8);
    lemma_joined_step(h, 9);
    assert(h.take(10) =~= h);
    let j = h[0] + nl + h[1] + nl + h[2] + nl + h[3] + nl + h[4] + nl + h[5] + nl + h[6] + nl + h[7] + nl + h[8] + nl + h[9];
    assert(joined_lines(h) == j);
    lemma_head_literals();
    assert(j =~= event_ical_head(e, now));
}

proof fn lemma_no_line_feed_concat(a: Seq<char>, b: Seq<char>)
    requires
        !a.contains('\n'),
        !b.contains('\n'),
    ensures
        !(a + b).contains('\n'),
{
    if (a + b).contains('\n') {
        let i = choose|i: int| 0 <= i < (a + b).len() && (a + b)[i] == '\n';
        if i < a.len() {
            assert(a[i] == '\n');
        } else {
            assert(b[i - a.len()] == '\n');
        }
    }
}

proof fn lemma_two_no_line_feed(n: int)
    ensures
        !two(n).contains('\n'),
{
    lemma_pad_value(n as nat, 2);
    lemma_digits_lack(two(n), '\n');
}

proof fn lemma_compact_no_line_feed(dt: DateTime)
    ensures
        !compact_text(dt).contains('\n'),
{
    let y = dt.date.year as int;
    let a: nat = (if y < 0 { -y } else { y }) as nat;
    lemma_pad_value(a, 4);
    lemma_digits_lack(pad_dec(a, 4), '\n');
    let sign = if 0 <= y <= 9999 { Seq::<char>::empty() } else if y < 0 { seq!['-'] } else { seq!['+'] };
    assert(year_text(y) =~= sign + pad_dec(a, 4));
    lemma_no_line_feed_concat(sign, pad_dec(a, 4));
    lemma_two_no_line_feed(dt.date.month as int);
    lemma_two_no_line_feed(dt.date.day as int);
    lemma_two_no_line_feed(dt.time.hour as int);
    lemma_two_no_line_feed(dt.time.minute as int);
    lemma_two_no_line_feed(dt.time.second as int);
    let t = seq!['T'];
    assert(!t.contains('\n'));
    let p1 = year_text(y) + two(dt.date.month as int);
    lemma_no_line_feed_concat(year_text(y), two(dt.date.month as int));
    let p2 = p1 + two(dt.date.day as int);
    lemma_no_line_feed_concat(p1, two(dt.date.day as int));
    let p3 = p2 + t;
    lemma_no_line_feed_concat(p2, t);
    let p4 = p3 + two(dt.time.hour as int);
    lemma_no_line_feed_concat(p3, two(dt.time.hour as int));
    let p5 = p4 + two(dt.time.minute as int);
    lemma_no_line_feed_concat(p4, two(dt.time.minute as int));
    lemma_no_line_feed_concat(p5, two(dt.time.second as int));
    assert(compact_text(dt) == p5 + two(dt.time.second as int));
}

proof fn lemma_event_ical_lines_clean(e: Event, now: DateTime)
    requires
        !e.uid@.contains('\n'),
        !e.timezone@.contains('\n'),
    ensures
        forall|i: int| 0 <= i < event_ical_lines(e, now).len() ==> !(#[trigger] event_ical_lines(e, now)[i]).contains('\n'),
{
    let lines = event_ical_lines(e, now);
    reveal_strlit("BEGIN:VCALENDAR");
    reveal_strlit("VERSION:2.0");
    reveal_strlit("PRODID:-//osa2cal//College Schedule//EN");
    reveal_strlit("CALSCALE:GREGORIAN");
    reveal_strlit("BEGIN:VEVENT");
    reveal_strlit("UID:");
    reveal_strlit("DTSTAMP:");
    reveal_strlit("Z");
    reveal_strlit("DTSTART;TZID=");
    reveal_strlit(":");
    reveal_strlit("DTEND;TZID=");
    reveal_strlit("SUMMARY:");
    reveal_strlit("LOCATION:");
    reveal_strlit("DESCRIPTION:");
    reveal_strlit("END:VEVENT");
    reveal_strlit("END:VCALENDAR");
    assert(!"BEGIN:VCALENDAR"@.contains('\n'));
    assert(!"VERSION:2.0"@.contains('\n'));
    assert(!"PRODID:-//osa2cal//College Schedule//EN"@.contains('\n'));
    assert(!"CALSCALE:GREGORIAN"@.contains('\n'));
    assert(!"BEGIN:VEVENT"@.contains('\n'));
    assert(!"UID:"@.contains('\n'));
    assert(!"DTSTAMP:"@.contains('\n'));
    assert(!"Z"@.contains('\n'));
    assert(!"DTSTART;TZID="@.contains('\n'));
    assert(!":"@.contains('\n'));
    assert(!"DTEND;TZID="@.contains('\n'));
    assert(!"SUMMARY:"@.contains('\n'));
    assert(!"LOCATION:"@.contains('\n'));
    assert(!"DESCRIPTION:"@.contains('\n'));
    assert(!"END:VEVENT"@.contains('\n'));
    assert(!"END:VCALENDAR"@.contains('\n'));
    lemma_no_line_feed_concat("UID:"@, e.uid@);
    lemma_compact_no_line_feed(now);
    lemma_compact_no_line_feed(e.start);
    lemma_compact_no_line_feed(e.end);
    lemma_no_line_feed_concat("DTSTAMP:"@, compact_text(now));
    lemma_no_line_feed_concat("DTSTAMP:"@ + compact_text(now), "Z"@);
    lemma_no_line_feed_concat("DTSTART;TZID="@, e.timezone@);
    lemma_no_line_feed_concat("DTSTART;TZID="@ + e.timezone@, ":"@);
    lemma_no_line_feed_concat("DTSTART;TZID="@ + e.timezone@ + ":"@, compact_text(e.start));
    lemma_no_line_feed_concat("DTEND;TZID="@, e.timezone@);
    lemma_no_line_feed_concat("DTEND;TZID="@ + e.timezone@, ":"@);
    lemma_no_line_feed_concat("DTEND;TZID="@ + e.timezone@ + ":"@, compact_text(e.end));
    lemma_escape_has_no_line_feed(e.summary@);
    lemma_no_line_feed_concat("SUMMARY:"@, escape_text(e.summary@));
    if let Some(l) = e.location {
        lemma_escape_has_no_line_feed(l@);
        lemma_no_line_feed_concat("LOCATION:"@, escape_text(l@));
    }
    if let Some(d) = e.description {
        lemma_escape_has_no_line_feed(d@);
        lemma_no_line_feed_concat("DESCRIPTION:"@, escape_text(d@));
    }
    assert forall|i: int| 0 <= i < lines.len() implies !(#[trigger] lines[i]).contains('\n') by {
        if i < 10 {
        } else if e.location is Some && i == 10 {
        } else if e.description is Some && i == lines.len() - 3 {
        } else {
            assert(i >= lines.len() - 2);
        }
    }
}

} // verus!
