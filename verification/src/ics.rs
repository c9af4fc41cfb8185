//! Export of a schedule as an iCalendar file, built with the `icalendar` crate.
use vstd::prelude::*;
use crate::config::Config;
use crate::datetime::{compact_text, date_text, two, year_text, Date, DateTime, Time};
use crate::schedule::{
    lesson_description, lesson_description_text, lesson_location, lesson_position, lesson_total, lesson_uid, push_lesson_uid, Lesson,
    Schedule,
};
use crate::text::{all_digits, dec, is_suffix, lemma_dec_len_tiny, lemma_dec_value, lemma_pad_value, pad_dec, pow10};
use icalendar::Calendar as IcsCalendar;
use icalendar::Component;
use icalendar::Event as IcsEvent;
use icalendar::EventLike;

verus! {

#[verifier::external_type_specification]
#[verifier::external_body]
pub struct ExIcsCalendar(IcsCalendar);

#[verifier::external_type_specification]
#[verifier::external_body]
pub struct ExIcsEvent(IcsEvent);

/// The element type of a calendar's component list; Verus needs it declared
/// because `icalendar::Calendar` dereferences to a slice of it.
#[verifier::external_type_specification]
#[verifier::external_body]
pub struct ExIcsCalendarComponent(icalendar::CalendarComponent);

/// The single-valued properties of an `IcsEvent` that carry no
/// parameters, by name, with their values.
pub uninterp spec fn ics_event_properties(e: IcsEvent) -> Map<Seq<char>, Seq<char>>;

/// The events of an `IcsCalendar` in the order they were pushed, each
/// by its properties.
pub uninterp spec fn ics_calendar_events(c: IcsCalendar) -> Seq<Map<Seq<char>, Seq<char>>>;

/// Every property of an `IcsEvent` carries no parameters, it has no
/// property that may occur more than once and no sub-component: all that the
/// event holds is `ics_event_properties`.
pub uninterp spec fn ics_event_simple(e: IcsEvent) -> bool;

/// Every calendar-level property of an `IcsCalendar` carries no parameters
/// and every component is a simple event (`ics_event_simple`).
pub uninterp spec fn ics_calendar_simple(c: IcsCalendar) -> bool;

/// The calendar-level properties of an `IcsCalendar`, in order.
pub uninterp spec fn ics_calendar_properties(c: IcsCalendar) -> Seq<PropertyEntry>;

/// The content line `icalendar` writes for a property with the given name
/// and value and no parameters, before its line end: `NAME:value`, the value
/// escaped where its type is text, folded after 75 bytes.
pub uninterp spec fn ics_content_line(name: Seq<char>, value: Seq<char>) -> Seq<char>;

/// A property as its name and value.
pub type PropertyEntry = (Seq<char>, Seq<char>);

/// No properties.
pub open spec fn no_properties() -> Map<Seq<char>, Seq<char>> {
    Map::empty()
}

/// No events.
pub open spec fn no_events() -> Seq<Map<Seq<char>, Seq<char>>> {
    Seq::empty()
}

/// The properties `IcsCalendar::new` starts with.
pub open spec fn default_calendar_properties() -> Seq<PropertyEntry> {
    seq![("VERSION"@, "2.0"@), ("PRODID"@, "ICALENDAR-RS"@), ("CALSCALE"@, "GREGORIAN"@)]
}

/// `IcsCalendar::new`: a calendar with the default properties and without
/// components.
#[verifier::external_body]
fn ics_calendar_new() -> (res: IcsCalendar)
    ensures
        ics_calendar_events(res) == no_events(),
        ics_calendar_properties(res) == default_calendar_properties(),
        ics_calendar_simple(res),
{
    IcsCalendar::new()
}

/// `IcsEvent::new`: an event without properties.
#[verifier::external_body]
fn ics_event_new() -> (res: IcsEvent)
    ensures
        ics_event_properties(res) == no_properties(),
        ics_event_simple(res),
{
    IcsEvent::new()
}

/// `Component::summary`: sets the `SUMMARY` property to the text as given.
#[verifier::external_body]
fn ics_summary(e: &mut IcsEvent, value: &str)
    ensures
        ics_event_properties(*final(e)) == ics_event_properties(*old(e)).insert("SUMMARY"@, value@),
        ics_event_simple(*old(e)) ==> ics_event_simple(*final(e)),
{
    e.summary(value);
}

/// `Component::description`: sets the `DESCRIPTION` property to the text as given.
#[verifier::external_body]
fn ics_description(e: &mut IcsEvent, value: &str)
    ensures
        ics_event_properties(*final(e)) == ics_event_properties(*old(e)).insert("DESCRIPTION"@, value@),
        ics_event_simple(*old(e)) ==> ics_event_simple(*final(e)),
{
    e.description(value);
}

/// `EventLike::location`: sets the `LOCATION` property to the text as given.
#[verifier::external_body]
fn ics_location(e: &mut IcsEvent, value: &str)
    ensures
        ics_event_properties(*final(e)) == ics_event_properties(*old(e)).insert("LOCATION"@, value@),
        ics_event_simple(*old(e)) ==> ics_event_simple(*final(e)),
{
    e.location(value);
}

/// `Component::uid`: sets the `UID` property to the text as given.
#[verifier::external_body]
fn ics_uid(e: &mut IcsEvent, value: &str)
    ensures
        ics_event_properties(*final(e)) == ics_event_properties(*old(e)).insert("UID"@, value@),
        ics_event_simple(*old(e)) ==> ics_event_simple(*final(e)),
{
    e.uid(value);
}

/// `EventLike::starts` with a `chrono::NaiveDateTime`: sets `DTSTART` to the
/// floating date-time written `%Y%m%dT%H%M%S`.
#[verifier::external_body]
fn ics_starts(e: &mut IcsEvent, dt: &DateTime)
    requires
        dt.valid(),
    ensures
        ics_event_properties(*final(e)) == ics_event_properties(*old(e)).insert("DTSTART"@, compact_text(*dt)),
        ics_event_simple(*old(e)) ==> ics_event_simple(*final(e)),
{
    let naive = chrono::NaiveDate::from_ymd_opt(dt.date.year, dt.date.month, dt.date.day).unwrap().and_hms_opt(
        dt.time.hour,
        dt.time.minute,
        dt.time.second,
    ).unwrap();
    e.starts(naive);
}

/// `EventLike::ends` with a `chrono::NaiveDateTime`: sets `DTEND` to the
/// floating date-time written `%Y%m%dT%H%M%S`.
#[verifier::external_body]
fn ics_ends(e: &mut IcsEvent, dt: &DateTime)
    requires
        dt.valid(),
    ensures
        ics_event_properties(*final(e)) == ics_event_properties(*old(e)).insert("DTEND"@, compact_text(*dt)),
        ics_event_simple(*old(e)) ==> ics_event_simple(*final(e)),
{
    let naive = chrono::NaiveDate::from_ymd_opt(dt.date.year, dt.date.month, dt.date.day).unwrap().and_hms_opt(
        dt.time.hour,
        dt.time.minute,
        dt.time.second,
    ).unwrap();
    e.ends(naive);
}

/// `IcsEvent::done`: moves everything the event holds into the returned
/// event and leaves it empty.
#[verifier::external_body]
fn ics_done(e: &mut IcsEvent) -> (res: IcsEvent)
    ensures
        ics_event_properties(res) == ics_event_properties(*old(e)),
        ics_event_simple(res) == ics_event_simple(*old(e)),
        ics_event_properties(*final(e)) == no_properties(),
        ics_event_simple(*final(e)),
{
    e.done()
}

/// `IcsCalendar::push`: appends the event; the calendar's own properties stay.
#[verifier::external_body]
fn ics_push(c: &mut IcsCalendar, e: IcsEvent)
    ensures
        ics_calendar_events(*final(c)) == ics_calendar_events(*old(c)).push(ics_event_properties(e)),
        ics_calendar_properties(*final(c)) == ics_calendar_properties(*old(c)),
        ics_calendar_simple(*final(c)) == (ics_calendar_simple(*old(c)) && ics_event_simple(e)),
{
    c.push(e);
}

/// `line` stands in `text` as a whole line, between two CRLF line ends.
pub open spec fn holds_line(text: Seq<char>, line: Seq<char>) -> bool {
    exists|p: int|
        0 <= p && p + line.len() + 4 <= text.len() && #[trigger] text.subrange(p, p + line.len() + 4)
            == seq!['\r', '\n'] + line + seq!['\r', '\n']
}

/// A content line that iCalendar writes as it is: at most 75 characters,
/// all printable ASCII, and none that a text value escapes.
pub open spec fn plain_line(line: Seq<char>) -> bool {
    line.len() <= 75 && safe_chars(line)
}

/// All characters printable ASCII, and none that a text value escapes.
pub open spec fn safe_chars(line: Seq<char>) -> bool {
    forall|i: int|
        0 <= i < line.len() ==> {
            let c = #[trigger] line[i];
            32 <= c as int <= 126 && c != '\\' && c != ',' && c != ';'
        }
}

/// The content line `NAME:value` of a property.
pub open spec fn property_line(name: Seq<char>, value: Seq<char>) -> Seq<char> {
    name + seq![':'] + value
}

/// Every property of every event whose line is plain stands in `text` as a line.
pub open spec fn holds_event_lines(text: Seq<char>, events: Seq<Map<Seq<char>, Seq<char>>>) -> bool {
    forall|i: int, k: Seq<char>|
        0 <= i < events.len() && #[trigger] events[i].contains_key(k) && plain_line(property_line(k, events[i][k]))
            ==> holds_line(text, property_line(k, events[i][k]))
}

/// `text` is one iCalendar object: it begins with the line `BEGIN:VCALENDAR`
/// and ends with the line `END:VCALENDAR`.
pub open spec fn calendar_frame(text: Seq<char>) -> bool {
    &&& text.len() >= "BEGIN:VCALENDAR\r\n"@.len()
    &&& text.subrange(0, "BEGIN:VCALENDAR\r\n"@.len() as int) == "BEGIN:VCALENDAR\r\n"@
    &&& is_suffix("END:VCALENDAR\r\n"@, text)
}

/// The text of a property: `NAME:value` where that line is plain, else as
/// `write` has it; then CRLF.
pub open spec fn written_property(p: PropertyEntry, write: spec_fn(PropertyEntry) -> Seq<char>) -> Seq<char> {
    if plain_line(property_line(p.0, p.1)) {
        property_line(p.0, p.1) + seq!['\r', '\n']
    } else {
        write(p) + seq!['\r', '\n']
    }
}

/// The texts of the properties, one after the other.
pub open spec fn written_properties(ps: Seq<PropertyEntry>, write: spec_fn(PropertyEntry) -> Seq<char>) -> Seq<char>
    decreases ps.len(),
{
    if ps.len() == 0 {
        Seq::empty()
    } else {
        written_properties(ps.drop_last(), write) + written_property(ps.last(), write)
    }
}

/// `a` comes before `b` in the order of their characters' code points (the
/// order of `String` keys in a `BTreeMap`).
pub open spec fn key_less(a: Seq<char>, b: Seq<char>) -> bool {
    exists|i: int|
        0 <= i <= a.len() && i <= b.len() && #[trigger] a.take(i) == b.take(i) && (
        (i == a.len() && i < b.len()) || (i < a.len() && i < b.len() && (a[i] as int) < (b[i] as int)))
}

/// `ks` lists the names of `m`, each once, in increasing order.
pub open spec fn sorted_keys(m: Map<Seq<char>, Seq<char>>, ks: Seq<Seq<char>>) -> bool {
    &&& forall|i: int| 0 <= i < ks.len() ==> m.contains_key(#[trigger] ks[i])
    &&& forall|k: Seq<char>| #[trigger] m.contains_key(k) ==> ks.contains(k)
    &&& forall|i: int, j: int| 0 <= i < j < ks.len() ==> key_less(#[trigger] ks[i], #[trigger] ks[j])
}

/// The properties of `m` in the order `ks`.
pub open spec fn entries_in(m: Map<Seq<char>, Seq<char>>, ks: Seq<Seq<char>>) -> Seq<PropertyEntry> {
    ks.map_values(|k: Seq<char>| (k, m[k]))
}

/// The text of one event with properties `m` in the order `ks`: a `DTSTAMP`
/// line with `stamp` written `%Y%m%dT%H%M%SZ` where `m` has none, the
/// properties, a `UID` line with `uid` where `m` has none.
pub open spec fn event_block(
    m: Map<Seq<char>, Seq<char>>,
    ks: Seq<Seq<char>>,
    stamp: DateTime,
    uid: Seq<char>,
    write: spec_fn(PropertyEntry) -> Seq<char>,
) -> Seq<char> {
    "BEGIN:VEVENT\r\n"@ + (if m.contains_key("DTSTAMP"@) {
        Seq::empty()
    } else {
        "DTSTAMP:"@ + compact_text(stamp) + "Z\r\n"@
    }) + written_properties(entries_in(m, ks), write) + (if m.contains_key("UID"@) {
        Seq::empty()
    } else {
        "UID:"@ + uid + seq!['\r', '\n']
    }) + "END:VEVENT\r\n"@
}

/// The texts of the first `n` events, one after the other.
pub open spec fn event_blocks(
    events: Seq<Map<Seq<char>, Seq<char>>>,
    keys: Seq<Seq<Seq<char>>>,
    stamps: Seq<DateTime>,
    uids: Seq<Seq<char>>,
    n: nat,
    write: spec_fn(PropertyEntry) -> Seq<char>,
) -> Seq<char>
    decreases n,
{
    if n == 0 {
        Seq::empty()
    } else {
        event_blocks(events, keys, stamps, uids, (n - 1) as nat, write) + event_block(
            events[n - 1],
            keys[n - 1],
            stamps[n - 1],
            uids[n - 1],
            write,
        )
    }
}

/// `text` is the calendar with properties `props` and the events `events`,
/// each event's properties in the order `keys`, stamped `stamps` and, where
/// it has no `UID`, given `uids`.
pub open spec fn calendar_text_with(
    text: Seq<char>,
    props: Seq<PropertyEntry>,
    events: Seq<Map<Seq<char>, Seq<char>>>,
    keys: Seq<Seq<Seq<char>>>,
    stamps: Seq<DateTime>,
    uids: Seq<Seq<char>>,
    write: spec_fn(PropertyEntry) -> Seq<char>,
) -> bool {
    &&& keys.len() == events.len()
    &&& stamps.len() == events.len()
    &&& uids.len() == events.len()
    &&& forall|i: int| 0 <= i < events.len() ==> sorted_keys(events[i], #[trigger] keys[i])
    &&& forall|i: int| 0 <= i < stamps.len() ==> (#[trigger] stamps[i]).valid()
    &&& text == "BEGIN:VCALENDAR\r\n"@ + written_properties(props, write) + event_blocks(
        events,
        keys,
        stamps,
        uids,
        events.len(),
        write,
    ) + "END:VCALENDAR\r\n"@
}

/// `text` is the calendar with properties `props` and the events `events`,
/// one `VEVENT` block per event in order, each holding exactly that event's
/// properties in name order, each property written as `write` has it where
/// its line is not plain; what is left open is only the time stamp of each
/// event and the UID of an event without one.
pub open spec fn calendar_text_is(
    text: Seq<char>,
    props: Seq<PropertyEntry>,
    events: Seq<Map<Seq<char>, Seq<char>>>,
    write: spec_fn(PropertyEntry) -> Seq<char>,
) -> bool {
    exists|keys: Seq<Seq<Seq<char>>>, stamps: Seq<DateTime>, uids: Seq<Seq<char>>|
        #[trigger] calendar_text_with(text, props, events, keys, stamps, uids, write)
}

/// The text of the calendar (`Display` of `IcsCalendar`). For a calendar of
/// simple events: `BEGIN:VCALENDAR`, the calendar's properties, one `VEVENT`
/// block per event in push order with that event's properties in name order,
/// then `END:VCALENDAR`, each property written as `ics_content_line` says
/// and ended by CRLF.
/// Each event without a `DTSTAMP` is stamped with the current UTC time (a
/// valid date-time; which one is not claimed), and one without a `UID` gets a
/// random one. Nothing is claimed of a calendar with other content.
#[verifier::external_body]
fn ics_to_string(c: &IcsCalendar) -> (res: String)
    ensures
        ics_calendar_simple(*c) ==> calendar_text_is(
            res@,
            ics_calendar_properties(*c),
            ics_calendar_events(*c),
            |p: PropertyEntry| ics_content_line(p.0, p.1),
        ),
{
    c.to_string()
}

/// The start or end of an exported event: the lesson's hour and minute on
/// the day, seconds dropped.
pub open spec fn ics_time(date: Date, t: Time) -> DateTime {
    DateTime { date, time: Time { hour: t.hour, minute: t.minute, second: 0 } }
}

/// The properties of the exported event of lesson `l` on day `s`.
pub open spec fn ics_lesson_properties(s: Schedule, l: Lesson, config: Config) -> Map<Seq<char>, Seq<char>> {
    no_properties()
        .insert("SUMMARY"@, l.title@)
        .insert("DESCRIPTION"@, lesson_description(s, l))
        .insert("LOCATION"@, lesson_location(config, l))
        .insert("DTSTART"@, compact_text(ics_time(s.date, l.start_time)))
        .insert("DTEND"@, compact_text(ics_time(s.date, l.end_time)))
        .insert("UID"@, lesson_uid(s.group_id, s.date, l.order))
}

/// A lesson can be exported: its day is a calendar date and both times have
/// an hour below 24 and a minute below 60.
pub open spec fn exportable(s: Schedule) -> bool {
    &&& s.date.valid()
    &&& forall|j: int|
        0 <= j < s.lessons@.len() ==> {
            let l = #[trigger] s.lessons@[j];
            l.start_time.hour < 24 && l.start_time.minute < 60 && l.end_time.hour < 24
                && l.end_time.minute < 60
        }
}

fn lesson_event(schedule: &Schedule, lesson: &Lesson, config: &Config) -> (res: IcsEvent)
    requires
        schedule.date.valid(),
        lesson.start_time.hour < 24 && lesson.start_time.minute < 60,
        lesson.end_time.hour < 24 && lesson.end_time.minute < 60,
    ensures
        ics_event_properties(res) == ics_lesson_properties(*schedule, *lesson, *config),
        ics_event_simple(res),
{
    let start = DateTime {
        date: schedule.date,
        time: Time { hour: lesson.start_time.hour, minute: lesson.start_time.minute, second: 0 },
    };
    let end = DateTime {
        date: schedule.date,
        time: Time { hour: lesson.end_time.hour, minute: lesson.end_time.minute, second: 0 },
    };

    let mut location = config.college_or_default();
    location.append(" - ");
    location.append(lesson.cabinet.as_str());

    let mut uid = String::new();
    push_lesson_uid(&mut uid, schedule, lesson);

    let description = lesson_description_text(schedule, lesson);

    let mut event = ics_event_new();
    ics_summary(&mut event, lesson.title.as_str());
    ics_description(&mut event, description.as_str());
    ics_location(&mut event, location.as_str());
    ics_starts(&mut event, &start);
    ics_ends(&mut event, &end);
    ics_uid(&mut event, uid.as_str());
    ics_done(&mut event)
}

/// The properties of the exported events of all lessons, day by day.
pub open spec fn ics_events(schedules: Seq<Schedule>, config: Config) -> Seq<Map<Seq<char>, Seq<char>>>
    decreases schedules.len(),
{
    if schedules.len() == 0 {
        seq![]
    } else {
        ics_events(schedules.drop_last(), config) + schedules.last().lessons@.map_values(
            |l: Lesson| ics_lesson_properties(schedules.last(), l, config),
        )
    }
}

/// The calendar of all lessons, one event per lesson, day by day and in
/// lesson order within a day.
pub fn build_calendar(schedules: &[Schedule], config: &Config) -> (res: IcsCalendar)
    requires
        forall|i: int| 0 <= i < schedules@.len() ==> exportable(#[trigger] schedules@[i]),
    ensures
        ics_calendar_events(res) == ics_events(schedules@, *config),
        ics_calendar_properties(res) == default_calendar_properties(),
        ics_calendar_simple(res),
{
    let mut calendar = ics_calendar_new();
    let mut i: usize = 0;
    while i < schedules.len()
        invariant
            i <= schedules@.len(),
            forall|a: int| 0 <= a < schedules@.len() ==> exportable(#[trigger] schedules@[a]),
            ics_calendar_events(calendar) == ics_events(schedules@.take(i as int), *config),
            ics_calendar_properties(calendar) == default_calendar_properties(),
            ics_calendar_simple(calendar),
        decreases schedules@.len() - i,
    {
        let schedule = &schedules[i];
        let ghost before = ics_calendar_events(calendar);
        assert(exportable(schedules@[i as int]));
        let mut k: usize = 0;
        while k < schedule.lessons.len()
            invariant
                *schedule == schedules@[i as int],
                exportable(*schedule),
                k <= schedule.lessons@.len(),
                ics_calendar_events(calendar) == before + schedule.lessons@.take(k as int).map_values(
                    |l: Lesson| ics_lesson_properties(*schedule, l, *config),
                ),
                ics_calendar_properties(calendar) == default_calendar_properties(),
                ics_calendar_simple(calendar),
            decreases schedule.lessons@.len() - k,
        {
            let lesson = &schedule.lessons[k];
            assert(schedule.lessons@[k as int] == *lesson);
            let event = lesson_event(schedule, lesson, config);
            ics_push(&mut calendar, event);
            assert(schedule.lessons@.take(k + 1) =~= schedule.lessons@.take(k as int).push(*lesson));
            assert(ics_calendar_events(calendar) =~= before + schedule.lessons@.take(k + 1).map_values(
                |l: Lesson| ics_lesson_properties(*schedule, l, *config),
            ));
            k = k + 1;
        }
        assert(schedule.lessons@.take(k as int) =~= schedule.lessons@);
        assert(schedules@.take(i + 1).drop_last() =~= schedules@.take(i as int));
        i = i + 1;
    }
    assert(schedules@.take(schedules@.len() as int) =~= schedules@);
    calendar
}

proof fn lemma_ics_events_len(s: Seq<Schedule>, c: Config)
    ensures
        ics_events(s, c).len() == lesson_total(s),
    decreases s.len(),
{
    if s.len() > 0 {
        lemma_ics_events_len(s.drop_last(), c);
    }
}

/// The event of lesson `j` of day `i` stands at that lesson's position.
pub proof fn lemma_ics_events_index(s: Seq<Schedule>, c: Config, i: int, j: int)
    requires
        0 <= i < s.len(),
        0 <= j < s[i].lessons@.len(),
    ensures
        0 <= lesson_position(s, i, j) < ics_events(s, c).len(),
        ics_events(s, c)[lesson_position(s, i, j)] == ics_lesson_properties(s[i], s[i].lessons@[j], c),
    decreases s.len(),
{
    lemma_ics_events_len(s, c);
    lemma_ics_events_len(s.drop_last(), c);
    let rest = s.drop_last();
    assert(ics_events(s, c) == ics_events(rest, c) + s.last().lessons@.map_values(
        |l: Lesson| ics_lesson_properties(s.last(), l, c),
    ));
    if i == s.len() - 1 {
        assert(s.take(i) =~= rest);
        assert(s.last() == s[i]);
    } else {
        assert(rest[i] == s[i]);
        assert(rest.take(i) =~= s.take(i));
        lemma_ics_events_index(rest, c, i, j);
        assert(lesson_position(rest, i, j) == lesson_position(s, i, j));
    }
}

/// The iCalendar file of all lessons: `BEGIN:VCALENDAR`, the default
/// calendar properties, one `VEVENT` block per lesson, day by day and in
/// lesson order within a day, each with that lesson's properties, then
/// `END:VCALENDAR`. Each plain property line of each lesson, in particular
/// its `UID` line, stands in the text as a line.
pub fn generate_ics(schedules: &[Schedule], config: &Config) -> (res: String)
    requires
        forall|i: int| 0 <= i < schedules@.len() ==> exportable(#[trigger] schedules@[i]),
    ensures
        calendar_text_is(
            res@,
            default_calendar_properties(),
            ics_events(schedules@, *config),
            |p: PropertyEntry| ics_content_line(p.0, p.1),
        ),
        calendar_frame(res@),
        holds_event_lines(res@, ics_events(schedules@, *config)),
        forall|i: int, j: int, k: Seq<char>|
            0 <= i < schedules@.len() && 0 <= j < schedules@[i].lessons@.len()
                && #[trigger] ics_lesson_properties(schedules@[i], schedules@[i].lessons@[j], *config).contains_key(k)
                && plain_line(property_line(k, ics_lesson_properties(schedules@[i], schedules@[i].lessons@[j], *config)[k]))
                ==> holds_line(res@, property_line(k, ics_lesson_properties(schedules@[i], schedules@[i].lessons@[j], *config)[k])),
        forall|i: int, j: int|
            0 <= i < schedules@.len() && 0 <= j < schedules@[i].lessons@.len() ==> holds_line(
                res@,
                property_line("UID"@, #[trigger] lesson_uid(schedules@[i].group_id, schedules@[i].date, schedules@[i].lessons@[j].order)),
            ),
{
    let calendar = build_calendar(schedules, config);
    let text = ics_to_string(&calendar);
    proof {
        lemma_calendar_text_frame(
            text@,
            default_calendar_properties(),
            ics_events(schedules@, *config),
            |p: PropertyEntry| ics_content_line(p.0, p.1),
        );
        lemma_calendar_text_lines(
            text@,
            default_calendar_properties(),
            ics_events(schedules@, *config),
            |p: PropertyEntry| ics_content_line(p.0, p.1),
        );
        assert forall|i: int, j: int, k: Seq<char>|
            0 <= i < schedules@.len() && 0 <= j < schedules@[i].lessons@.len()
                && #[trigger] ics_lesson_properties(schedules@[i], schedules@[i].lessons@[j], *config).contains_key(k)
                && plain_line(property_line(k, ics_lesson_properties(schedules@[i], schedules@[i].lessons@[j], *config)[k]))
                implies holds_line(text@, property_line(k, ics_lesson_properties(schedules@[i], schedules@[i].lessons@[j], *config)[k])) by {
            lemma_ics_events_index(schedules@, *config, i, j);
            let e = ics_events(schedules@, *config);
            let pos = lesson_position(schedules@, i, j);
            assert(e[pos].contains_key(k));
        }
        assert forall|i: int, j: int|
            0 <= i < schedules@.len() && 0 <= j < schedules@[i].lessons@.len() implies holds_line(
                text@,
                property_line("UID"@, #[trigger] lesson_uid(schedules@[i].group_id, schedules@[i].date, schedules@[i].lessons@[j].order)),
            ) by {
            let l = schedules@[i].lessons@[j];
            let props = ics_lesson_properties(schedules@[i], l, *config);
            assert(exportable(schedules@[i]));
            lemma_uid_line_plain(schedules@[i].group_id, schedules@[i].date, l.order);
            assert(props.contains_key("UID"@));
            assert(props["UID"@] == lesson_uid(schedules@[i].group_id, schedules@[i].date, l.order));
            lemma_ics_events_index(schedules@, *config, i, j);
            let e = ics_events(schedules@, *config);
            assert(e[lesson_position(schedules@, i, j)].contains_key("UID"@));
        }
    }
    text
}

} // verus!

verus! {

proof fn lemma_safe_concat(a: Seq<char>, b: Seq<char>)
    requires
        safe_chars(a),
        safe_chars(b),
    ensures
        safe_chars(a + b),
{
    assert forall|i: int| 0 <= i < (a + b).len() implies {
        let c = #[trigger] (a + b)[i];
        32 <= c as int <= 126 && c != '\\' && c != ',' && c != ';'
    } by {
        if i < a.len() {
            assert((a + b)[i] == a[i]);
        } else {
            assert((a + b)[i] == b[i - a.len()]);
        }
    }
}

proof fn lemma_digits_safe(s: Seq<char>)
    requires
        all_digits(s),
    ensures
        safe_chars(s),
{
    assert forall|i: int| 0 <= i < s.len() implies {
        let c = #[trigger] s[i];
        32 <= c as int <= 126 && c != '\\' && c != ',' && c != ';'
    } by {
        assert(48 <= s[i] as int <= 57);
    }
}

proof fn lemma_pad_plain(n: nat, w: nat, k: nat)
    requires
        n < pow10(k),
        1 <= k,
        w <= k,
    ensures
        pad_dec(n, w).len() <= k,
        safe_chars(pad_dec(n, w)),
{
    lemma_dec_len_tiny(n, k);
    lemma_pad_value(n, w);
    lemma_digits_safe(pad_dec(n, w));
}

proof fn lemma_date_text_plain(d: Date)
    requires
        d.valid(),
    ensures
        date_text(d).len() <= 13,
        safe_chars(date_text(d)),
{
    reveal_with_fuel(pow10, 7);
    assert(pow10(2) == 100);
    assert(pow10(6) == 1000000);
    let y = d.year as int;
    let a: nat = (if y < 0 { -y } else { y }) as nat;
    lemma_pad_plain(a, 4, 6);
    let yt = year_text(y);
    let sign = if 0 <= y <= 9999 { Seq::<char>::empty() } else if y < 0 { seq!['-'] } else { seq!['+'] };
    assert(yt =~= sign + pad_dec(a, 4));
    assert(safe_chars(sign));
    lemma_safe_concat(sign, pad_dec(a, 4));
    lemma_pad_plain(d.month as nat, 2, 2);
    lemma_pad_plain(d.day as nat, 2, 2);
    let m = two(d.month as int);
    let dd = two(d.day as int);
    let dash = seq!['-'];
    assert(safe_chars(dash));
    lemma_safe_concat(yt, dash);
    lemma_safe_concat(yt + dash, m);
    lemma_safe_concat(yt + dash + m, dash);
    lemma_safe_concat(yt + dash + m + dash, dd);
    assert(date_text(d) == yt + dash + m + dash + dd);
}

proof fn lemma_dec_u32_plain(n: u32)
    ensures
        dec(n as nat).len() <= 10,
        safe_chars(dec(n as nat)),
{
    reveal_with_fuel(pow10, 11);
    assert(pow10(10) == 10000000000nat);
    lemma_dec_len_tiny(n as nat, 10);
    lemma_dec_value(n as nat);
    lemma_digits_safe(dec(n as nat));
}

/// A calendar's text begins with the line `BEGIN:VCALENDAR` and ends with
/// the line `END:VCALENDAR`.
pub proof fn lemma_calendar_text_frame(
    text: Seq<char>,
    props: Seq<PropertyEntry>,
    events: Seq<Map<Seq<char>, Seq<char>>>,
    write: spec_fn(PropertyEntry) -> Seq<char>,
)
    requires
        calendar_text_is(text, props, events, write),
    ensures
        calendar_frame(text),
{
    let (keys, stamps, uids) = choose|keys: Seq<Seq<Seq<char>>>, stamps: Seq<DateTime>, uids: Seq<Seq<char>>|
        #[trigger] calendar_text_with(text, props, events, keys, stamps, uids, write);
    let b = "BEGIN:VCALENDAR\r\n"@;
    let m = written_properties(props, write) + event_blocks(events, keys, stamps, uids, events.len(), write);
    let f = "END:VCALENDAR\r\n"@;
    assert(text =~= b + m + f);
    assert(text.subrange(0, b.len() as int) =~= b);
    assert(text.subrange(text.len() - f.len(), text.len() as int) =~= f);
}

/// `s` ends with CRLF.
spec fn ends_crlf(s: Seq<char>) -> bool {
    s.len() >= 2 && s[s.len() - 2] == '\r' && s[s.len() - 1] == '\n'
}

proof fn lemma_ends_crlf_concat(a: Seq<char>, b: Seq<char>)
    requires
        ends_crlf(b),
    ensures
        ends_crlf(a + b),
{
    assert((a + b)[(a + b).len() - 2] == b[b.len() - 2]);
    assert((a + b)[(a + b).len() - 1] == b[b.len() - 1]);
}

proof fn lemma_written_properties_concat(a: Seq<PropertyEntry>, b: Seq<PropertyEntry>, write: spec_fn(PropertyEntry) -> Seq<char>)
    ensures
        written_properties(a + b, write) == written_properties(a, write) + written_properties(b, write),
    decreases b.len(),
{
    if b.len() == 0 {
        assert(a + b =~= a);
        assert(written_properties(a, write) + Seq::<char>::empty() =~= written_properties(a, write));
    } else {
        assert((a + b).drop_last() =~= a + b.drop_last());
        assert((a + b).last() == b.last());
        lemma_written_properties_concat(a, b.drop_last(), write);
        assert(written_properties(a + b, write) =~= written_properties(a, write) + written_properties(b, write));
    }
}

proof fn lemma_written_properties_ends(ps: Seq<PropertyEntry>, write: spec_fn(PropertyEntry) -> Seq<char>)
    requires
        ps.len() > 0,
    ensures
        ends_crlf(written_properties(ps, write)),
{
    let p = ps.last();
    let w = written_property(p, write);
    if plain_line(property_line(p.0, p.1)) {
        lemma_ends_crlf_concat(property_line(p.0, p.1), seq!['\r', '\n']);
    } else {
        lemma_ends_crlf_concat(write(p), seq!['\r', '\n']);
    }
    lemma_ends_crlf_concat(written_properties(ps.drop_last(), write), w);
}

/// The texts of events `a` up to `n`, one after the other.
spec fn event_blocks_from(
    events: Seq<Map<Seq<char>, Seq<char>>>,
    keys: Seq<Seq<Seq<char>>>,
    stamps: Seq<DateTime>,
    uids: Seq<Seq<char>>,
    a: nat,
    n: nat,
    write: spec_fn(PropertyEntry) -> Seq<char>,
) -> Seq<char>
    decreases n,
{
    if n <= a {
        Seq::empty()
    } else {
        event_blocks_from(events, keys, stamps, uids, a, (n - 1) as nat, write) + event_block(
            events[n - 1],
            keys[n - 1],
            stamps[n - 1],
            uids[n - 1],
            write,
        )
    }
}

proof fn lemma_event_blocks_split(
    events: Seq<Map<Seq<char>, Seq<char>>>,
    keys: Seq<Seq<Seq<char>>>,
    stamps: Seq<DateTime>,
    uids: Seq<Seq<char>>,
    a: nat,
    n: nat,
    write: spec_fn(PropertyEntry) -> Seq<char>,
)
    requires
        a <= n,
    ensures
        event_blocks(events, keys, stamps, uids, n, write) == event_blocks(events, keys, stamps, uids, a, write)
            + event_blocks_from(events, keys, stamps, uids, a, n, write),
    decreases n,
{
    if n == a {
        assert(event_blocks(events, keys, stamps, uids, a, write) + Seq::<char>::empty() =~= event_blocks(
            events,
            keys,
            stamps,
            uids,
            a,
            write,
        ));
    } else {
        lemma_event_blocks_split(events, keys, stamps, uids, a, (n - 1) as nat, write);
        assert(event_blocks(events, keys, stamps, uids, n, write) =~= event_blocks(events, keys, stamps, uids, a, write)
            + event_blocks_from(events, keys, stamps, uids, a, n, write));
    }
}

/// `crlf + line + crlf` stands in `x + line + crlf + y` where `x` ends with CRLF.
proof fn lemma_line_at(x: Seq<char>, line: Seq<char>, y: Seq<char>)
    requires
        ends_crlf(x),
    ensures
        holds_line(x + (line + seq!['\r', '\n']) + y, line),
{
    let t = x + (line + seq!['\r', '\n']) + y;
    let p = x.len() - 2;
    assert(t.subrange(p, p + line.len() + 4) =~= seq!['\r', '\n'] + line + seq!['\r', '\n']);
}

/// In the text of a calendar, each property of each event whose line is
/// plain stands as a line.
pub proof fn lemma_calendar_text_lines(
    text: Seq<char>,
    props: Seq<PropertyEntry>,
    events: Seq<Map<Seq<char>, Seq<char>>>,
    write: spec_fn(PropertyEntry) -> Seq<char>,
)
    requires
        calendar_text_is(text, props, events, write),
    ensures
        holds_event_lines(text, events),
{
    let (keys, stamps, uids) = choose|keys: Seq<Seq<Seq<char>>>, stamps: Seq<DateTime>, uids: Seq<Seq<char>>|
        #[trigger] calendar_text_with(text, props, events, keys, stamps, uids, write);
    assert(calendar_text_with(text, props, events, keys, stamps, uids, write));
    assert forall|i: int, k: Seq<char>|
        0 <= i < events.len() && #[trigger] events[i].contains_key(k) && plain_line(property_line(k, events[i][k]))
            implies holds_line(text, property_line(k, events[i][k])) by {
        lemma_event_line(text, props, events, keys, stamps, uids, write, i, k);
    }
}

proof fn lemma_written_single(x: PropertyEntry, write: spec_fn(PropertyEntry) -> Seq<char>)
    ensures
        written_properties(seq![x], write) == written_property(x, write),
{
    let one = seq![x];
    assert(one.drop_last() =~= Seq::<PropertyEntry>::empty());
    assert(one.last() == x);
    assert(written_properties(one.drop_last(), write) == Seq::<char>::empty());
    assert(Seq::<char>::empty() + written_property(x, write) =~= written_property(x, write));
}

/// The properties of `m` written in the order `ks` hold the line of name `k`
/// after text that is empty or ends with CRLF.
proof fn lemma_property_in_block(
    m: Map<Seq<char>, Seq<char>>,
    ks: Seq<Seq<char>>,
    k: Seq<char>,
    write: spec_fn(PropertyEntry) -> Seq<char>,
) -> (r: (Seq<char>, Seq<char>))
    requires
        sorted_keys(m, ks),
        m.contains_key(k),
        plain_line(property_line(k, m[k])),
    ensures
        written_properties(entries_in(m, ks), write) == r.0 + (property_line(k, m[k]) + seq!['\r', '\n']) + r.1,
        r.0.len() == 0 || ends_crlf(r.0),
{
    assert(ks.contains(k));
    let j = choose|j: int| 0 <= j < ks.len() && ks[j] == k;
    let es = entries_in(m, ks);
    assert(es[j] == (k, m[k]));
    let line = property_line(k, m[k]);
    assert(written_property(es[j], write) == line + seq!['\r', '\n']);
    assert(es =~= es.take(j) + seq![es[j]] + es.skip(j + 1));
    lemma_written_properties_concat(es.take(j) + seq![es[j]], es.skip(j + 1), write);
    lemma_written_properties_concat(es.take(j), seq![es[j]], write);
    lemma_written_single(es[j], write);
    let before = written_properties(es.take(j), write);
    let after = written_properties(es.skip(j + 1), write);
    if j > 0 {
        lemma_written_properties_ends(es.take(j), write);
    } else {
        assert(es.take(j) =~= Seq::<PropertyEntry>::empty());
    }
    (before, after)
}

/// The text of one event holds the line of each plain property after text
/// that ends with CRLF.
proof fn lemma_line_in_block(
    m: Map<Seq<char>, Seq<char>>,
    ks: Seq<Seq<char>>,
    stamp: DateTime,
    uid: Seq<char>,
    k: Seq<char>,
    write: spec_fn(PropertyEntry) -> Seq<char>,
) -> (r: (Seq<char>, Seq<char>))
    requires
        sorted_keys(m, ks),
        m.contains_key(k),
        plain_line(property_line(k, m[k])),
    ensures
        event_block(m, ks, stamp, uid, write) == r.0 + (property_line(k, m[k]) + seq!['\r', '\n']) + r.1,
        ends_crlf(r.0),
{
    let (before, after) = lemma_property_in_block(m, ks, k, write);
    let line = property_line(k, m[k]);
    reveal_strlit("BEGIN:VEVENT\r\n");
    reveal_strlit("Z\r\n");
    let bv = "BEGIN:VEVENT\r\n"@;
    let st = if m.contains_key("DTSTAMP"@) {
        Seq::<char>::empty()
    } else {
        "DTSTAMP:"@ + compact_text(stamp) + "Z\r\n"@
    };
    let ut = if m.contains_key("UID"@) {
        Seq::<char>::empty()
    } else {
        "UID:"@ + uid + seq!['\r', '\n']
    };
    let lead = bv + st + before;
    assert(ends_crlf(bv + st)) by {
        if m.contains_key("DTSTAMP"@) {
            assert(bv + st =~= bv);
        } else {
            lemma_ends_crlf_concat(bv + "DTSTAMP:"@ + compact_text(stamp), "Z\r\n"@);
            assert(bv + st =~= bv + "DTSTAMP:"@ + compact_text(stamp) + "Z\r\n"@);
        }
    }
    if before.len() == 0 {
        assert(lead =~= bv + st);
    } else {
        lemma_ends_crlf_concat(bv + st, before);
    }
    assert(event_block(m, ks, stamp, uid, write) =~= lead + (line + seq!['\r', '\n']) + (after + ut + "END:VEVENT\r\n"@));
    (lead, after + ut + "END:VEVENT\r\n"@)
}

proof fn lemma_event_line(
    text: Seq<char>,
    props: Seq<PropertyEntry>,
    events: Seq<Map<Seq<char>, Seq<char>>>,
    keys: Seq<Seq<Seq<char>>>,
    stamps: Seq<DateTime>,
    uids: Seq<Seq<char>>,
    write: spec_fn(PropertyEntry) -> Seq<char>,
    i: int,
    k: Seq<char>,
)
    requires
        calendar_text_with(text, props, events, keys, stamps, uids, write),
        0 <= i < events.len(),
        events[i].contains_key(k),
        plain_line(property_line(k, events[i][k])),
    ensures
        holds_line(text, property_line(k, events[i][k])),
{
    let m = events[i];
    let line = property_line(k, m[k]);
    assert(sorted_keys(m, keys[i]));
    let (lead, rest) = lemma_line_in_block(m, keys[i], stamps[i], uids[i], k, write);
    let n = events.len();
    lemma_event_blocks_split(events, keys, stamps, uids, (i + 1) as nat, n, write);
    let b = "BEGIN:VCALENDAR\r\n"@;
    let f = "END:VCALENDAR\r\n"@;
    let wp = written_properties(props, write);
    let prior = event_blocks(events, keys, stamps, uids, i as nat, write);
    let later = event_blocks_from(events, keys, stamps, uids, (i + 1) as nat, n, write);
    let x = b + wp + prior + lead;
    let y = rest + later + f;
    lemma_ends_crlf_concat(b + wp + prior, lead);
    assert(text =~= x + (line + seq!['\r', '\n']) + y);
    lemma_line_at(x, line, y);
}

/// The `UID` line of an exported lesson is always written as it is.
pub proof fn lemma_uid_line_plain(g: u32, d: Date, o: u32)
    requires
        d.valid(),
    ensures
        plain_line(property_line("UID"@, lesson_uid(g, d, o))),
{
    reveal_strlit("UID");
    reveal_strlit("osa2cal-");
    reveal_strlit("-");
    let uid_key = "UID"@;
    let pre = "osa2cal-"@;
    let dash = "-"@;
    assert(uid_key =~= seq!['U', 'I', 'D']);
    assert(pre =~= seq!['o', 's', 'a', '2', 'c', 'a', 'l', '-']);
    assert(dash =~= seq!['-']);
    assert(safe_chars(uid_key));
    assert(safe_chars(pre));
    assert(safe_chars(dash));
    assert(safe_chars(seq![':']));
    lemma_dec_u32_plain(g);
    lemma_dec_u32_plain(o);
    lemma_date_text_plain(d);
    let gs = dec(g as nat);
    let os = dec(o as nat);
    let ds = date_text(d);
    lemma_safe_concat(uid_key, seq![':']);
    lemma_safe_concat(uid_key + seq![':'], pre);
    lemma_safe_concat(uid_key + seq![':'] + pre, gs);
    lemma_safe_concat(uid_key + seq![':'] + pre + gs, dash);
    lemma_safe_concat(uid_key + seq![':'] + pre + gs + dash, ds);
    lemma_safe_concat(uid_key + seq![':'] + pre + gs + dash + ds, dash);
    lemma_safe_concat(uid_key + seq![':'] + pre + gs + dash + ds + dash, os);
    assert(property_line(uid_key, lesson_uid(g, d, o)) =~= uid_key + seq![':'] + pre + gs + dash + ds + dash + os);
}

/// An exported lesson starts and ends at its own hour and minute, on the
/// 24-hour clock, on its day, with the seconds set to zero.
pub proof fn lemma_export_times(s: Schedule, l: Lesson, c: Config)
    ensures
        ics_lesson_properties(s, l, c).contains_key("DTSTART"@),
        ics_lesson_properties(s, l, c).contains_key("DTEND"@),
        ics_lesson_properties(s, l, c)["DTSTART"@] == compact_text(
            (DateTime { date: s.date, time: (Time { hour: l.start_time.hour, minute: l.start_time.minute, second: 0 }) }),
        ),
        ics_lesson_properties(s, l, c)["DTEND"@] == compact_text(
            (DateTime { date: s.date, time: (Time { hour: l.end_time.hour, minute: l.end_time.minute, second: 0 }) }),
        ),
{
    reveal_strlit("DTSTART");
    reveal_strlit("DTEND");
    reveal_strlit("UID");
    assert("DTSTART"@.len() != "DTEND"@.len());
    assert("DTSTART"@.len() != "UID"@.len());
    assert("DTEND"@.len() != "UID"@.len());
}

} // verus!
