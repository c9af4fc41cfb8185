//! Lessons and days of a group's schedule, the CalDAV events made of them,
//! and their terminal listing.
use vstd::prelude::*;
use crate::caldav::Event;
use crate::config::{college_text, timezone_text, Config};
use crate::datetime::{date_text, hm_text, lemma_date_split, weekday_from_monday, weekday_index, Date, DateTime, Time};
use crate::text::{dec, lemma_dec_injective, lemma_dec_value, lemma_digits_lack, lemma_split_at_separator, owned, push_decimal};

verus! {

/// One lesson of a day.
#[derive(Debug, Clone)]
pub struct Lesson {
    pub title: String,
    pub cabinet: String,
    pub teacher: String,
    /// Position of the lesson in the day.
    pub order: u32,
    pub start_time: Time,
    pub end_time: Time,
}

/// The lessons of one group on one day.
#[derive(Debug, Clone)]
pub struct Schedule {
    pub group_id: u32,
    pub date: Date,
    pub lessons: Vec<Lesson>,
}

/// The UID of a lesson's event: `osa2cal-{group}-{date}-{order}`.
pub open spec fn lesson_uid(group: u32, date: Date, order: u32) -> Seq<char> {
    "osa2cal-"@ + dec(group as nat) + "-"@ + date_text(date) + "-"@ + dec(order as nat)
}

/// The description of a lesson's event: its teacher and the group.
pub open spec fn lesson_description(s: Schedule, l: Lesson) -> Seq<char> {
    "Teacher: "@ + l.teacher@ + "\nGroup ID: "@ + dec(s.group_id as nat)
}

/// Appends `osa2cal-{group}-{date}-{order}`.
pub fn push_lesson_uid(out: &mut String, schedule: &Schedule, lesson: &Lesson)
    ensures
        final(out)@ == old(out)@ + lesson_uid(schedule.group_id, schedule.date, lesson.order),
{
    out.append("osa2cal-");
    push_decimal(out, schedule.group_id as u64);
    out.append("-");
    schedule.date.push_text(out);
    out.append("-");
    push_decimal(out, lesson.order as u64);
    assert(final(out)@ =~= old(out)@ + lesson_uid(schedule.group_id, schedule.date, lesson.order));
}

/// The description of a lesson's event: `Teacher: {teacher}\nGroup ID: {group}`.
pub fn lesson_description_text(schedule: &Schedule, lesson: &Lesson) -> (res: String)
    ensures
        res@ == lesson_description(*schedule, *lesson),
{
    let mut res = owned("Teacher: ");
    res.append(lesson.teacher.as_str());
    res.append("\nGroup ID: ");
    push_decimal(&mut res, schedule.group_id as u64);
    res
}

/// The location of a lesson's event: `{college} - {cabinet}`.
pub open spec fn lesson_location(c: Config, l: Lesson) -> Seq<char> {
    college_text(c) + " - "@ + l.cabinet@
}

/// `e` is the CalDAV event of lesson `l` on day `s`.
pub open spec fn caldav_event_of(s: Schedule, l: Lesson, c: Config, e: Event) -> bool {
    &&& e.uid@ == lesson_uid(s.group_id, s.date, l.order)
    &&& e.summary@ == l.title@
    &&& e.location matches Some(loc) && loc@ == lesson_location(c, l)
    &&& e.description matches Some(d) && d@ == lesson_description(s, l)
    &&& e.start == DateTime { date: s.date, time: l.start_time }
    &&& e.end == DateTime { date: s.date, time: l.end_time }
    &&& e.timezone@ == timezone_text(c)
}

/// The CalDAV event of a lesson: the lesson's title, `{college} - {cabinet}`
/// as its location, its teacher and group as its description, its start and
/// end on the day, in the configured time zone.
pub fn create_caldav_event(schedule: &Schedule, lesson: &Lesson, config: &Config) -> (res: Event)
    ensures
        caldav_event_of(*schedule, *lesson, *config, res),
{
    let start = DateTime { date: schedule.date, time: lesson.start_time };
    let end = DateTime { date: schedule.date, time: lesson.end_time };

    let mut location = config.college_or_default();
    location.append(" - ");
    location.append(lesson.cabinet.as_str());

    let description = lesson_description_text(schedule, lesson);

    let mut uid = String::new();
    push_lesson_uid(&mut uid, schedule, lesson);

    Event {
        uid,
        summary: lesson.title.clone(),
        location: Some(location),
        description: Some(description),
        start,
        end,
        timezone: config.timezone_or_default(),
    }
}

/// The number of lessons over all days.
pub open spec fn lesson_total(schedules: Seq<Schedule>) -> nat
    decreases schedules.len(),
{
    if schedules.len() == 0 {
        0
    } else {
        lesson_total(schedules.drop_last()) + schedules.last().lessons@.len()
    }
}

/// The position of lesson `j` of day `i` among all lessons.
pub open spec fn lesson_position(schedules: Seq<Schedule>, i: int, j: int) -> int {
    lesson_total(schedules.take(i)) + j
}

proof fn lemma_total_monotone(s: Seq<Schedule>, x: int, y: int)
    requires
        0 <= x <= y <= s.len(),
    ensures
        lesson_total(s.take(x)) <= lesson_total(s.take(y)),
    decreases y - x,
{
    if x < y {
        assert(s.take(y).drop_last() =~= s.take(y - 1));
        lemma_total_monotone(s, x, y - 1);
    }
}

proof fn lemma_position_bound(s: Seq<Schedule>, a: int, i: int)
    requires
        0 <= a < i <= s.len(),
    ensures
        lesson_total(s.take(a)) + s[a].lessons@.len() <= lesson_total(s.take(i)),
{
    assert(s.take(a + 1).drop_last() =~= s.take(a));
    assert(s.take(a + 1).last() == s[a]);
    lemma_total_monotone(s, a + 1, i);
}

/// The CalDAV events of all lessons, day by day and in lesson order within a
/// day; the number of events is the number of lessons.
pub fn sync_events(schedules: &[Schedule], config: &Config) -> (res: Vec<Event>)
    ensures
        res@.len() == lesson_total(schedules@),
        forall|i: int, j: int|
            0 <= i < schedules@.len() && 0 <= j < schedules@[i].lessons@.len() ==> caldav_event_of(
                schedules@[i],
                schedules@[i].lessons@[j],
                *config,
                #[trigger] res@[lesson_position(schedules@, i, j)],
            ),
{
    let mut res: Vec<Event> = Vec::new();
    let mut i: usize = 0;
    while i < schedules.len()
        invariant
            i <= schedules@.len(),
            res@.len() == lesson_total(schedules@.take(i as int)),
            forall|a: int, j: int|
                0 <= a < i && 0 <= j < schedules@[a].lessons@.len() ==> caldav_event_of(
                    schedules@[a],
                    schedules@[a].lessons@[j],
                    *config,
                    #[trigger] res@[lesson_position(schedules@, a, j)],
                ),
        decreases schedules@.len() - i,
    {
        let schedule = &schedules[i];
        let ghost base = res@.len();
        proof {
            assert forall|a: int, j: int|
                0 <= a < i && 0 <= j < schedules@[a].lessons@.len() implies lesson_position(schedules@, a, j) < base by {
                lemma_position_bound(schedules@, a, i as int);
            }
        }
        let mut k: usize = 0;
        while k < schedule.lessons.len()
            invariant
                i < schedules@.len(),
                *schedule == schedules@[i as int],
                k <= schedule.lessons@.len(),
                base == lesson_total(schedules@.take(i as int)),
                res@.len() == base + k,
                forall|a: int, j: int|
                    0 <= a < i && 0 <= j < schedules@[a].lessons@.len() ==> #[trigger] lesson_position(schedules@, a, j) < base,
                forall|a: int, j: int|
                    0 <= a < i && 0 <= j < schedules@[a].lessons@.len() ==> caldav_event_of(
                        schedules@[a],
                        schedules@[a].lessons@[j],
                        *config,
                        #[trigger] res@[lesson_position(schedules@, a, j)],
                    ),
                forall|j: int|
                    0 <= j < k ==> caldav_event_of(
                        *schedule,
                        schedule.lessons@[j],
                        *config,
                        #[trigger] res@[base + j],
                    ),
            decreases schedule.lessons@.len() - k,
        {
            let e = create_caldav_event(schedule, &schedule.lessons[k], config);
            res.push(e);
            k = k + 1;
        }
        proof {
            assert(schedules@.take(i + 1).drop_last() =~= schedules@.take(i as int));
            assert(schedules@.take(i + 1).last() == schedules@[i as int]);
            assert forall|a: int, j: int|
                0 <= a < i + 1 && 0 <= j < schedules@[a].lessons@.len() implies caldav_event_of(
                    schedules@[a],
                    schedules@[a].lessons@[j],
                    *config,
                    #[trigger] res@[lesson_position(schedules@, a, j)],
                ) by {
                if a == i {
                    assert(schedules@.take(a) =~= schedules@.take(i as int));
                    assert(lesson_position(schedules@, a, j) == base + j);
                }
            }
        }
        i = i + 1;
    }
    assert(schedules@.take(schedules@.len() as int) =~= schedules@);
    res
}

/// The name chrono prints for a weekday counted from Monday.
pub open spec fn weekday_name(i: int) -> Seq<char> {
    if i == 0 {
        "Mon"@
    } else if i == 1 {
        "Tue"@
    } else if i == 2 {
        "Wed"@
    } else if i == 3 {
        "Thu"@
    } else if i == 4 {
        "Fri"@
    } else if i == 5 {
        "Sat"@
    } else {
        "Sun"@
    }
}

/// One line of the terminal listing of a day.
#[derive(Debug, Clone)]
pub struct LessonLine {
    /// `HH:MM-HH:MM`.
    pub time: String,
    pub title: String,
    pub cabinet: String,
    pub teacher: String,
}

/// The terminal listing of one day.
#[derive(Debug, Clone)]
pub struct DayListing {
    /// `YYYY-MM-DD`.
    pub date: String,
    /// `Mon` to `Sun`.
    pub weekday: String,
    pub lesson_count: usize,
    pub lessons: Vec<LessonLine>,
}

/// The listing line of a lesson.
pub open spec fn lesson_line_of(l: Lesson, line: LessonLine) -> bool {
    &&& line.time@ == hm_text(l.start_time) + "-"@ + hm_text(l.end_time)
    &&& line.title@ == l.title@
    &&& line.cabinet@ == l.cabinet@
    &&& line.teacher@ == l.teacher@
}

/// The listing of a day.
pub open spec fn day_listing_of(s: Schedule, d: DayListing) -> bool {
    &&& d.date@ == date_text(s.date)
    &&& d.weekday@ == weekday_name(weekday_index(s.date))
    &&& d.lesson_count == s.lessons@.len()
    &&& d.lessons@.len() == s.lessons@.len()
    &&& forall|j: int| 0 <= j < s.lessons@.len() ==> lesson_line_of(s.lessons@[j], #[trigger] d.lessons@[j])
}

fn weekday_text(i: u32) -> (res: String)
    requires
        i < 7,
    ensures
        res@ == weekday_name(i as int),
{
    if i == 0 {
        owned("Mon")
    } else if i == 1 {
        owned("Tue")
    } else if i == 2 {
        owned("Wed")
    } else if i == 3 {
        owned("Thu")
    } else if i == 4 {
        owned("Fri")
    } else if i == 5 {
        owned("Sat")
    } else {
        owned("Sun")
    }
}

/// The listing of one day.
pub fn day_listing(schedule: &Schedule) -> (res: DayListing)
    requires
        schedule.date.valid(),
    ensures
        day_listing_of(*schedule, res),
{
    let w = weekday_from_monday(schedule.date);
    proof {
        assert(0 <= weekday_index(schedule.date) < 7);
    }
    let mut lines: Vec<LessonLine> = Vec::new();
    let mut k: usize = 0;
    while k < schedule.lessons.len()
        invariant
            k <= schedule.lessons@.len(),
            lines@.len() == k,
            forall|j: int| 0 <= j < k ==> lesson_line_of(schedule.lessons@[j], #[trigger] lines@[j]),
        decreases schedule.lessons@.len() - k,
    {
        let l = &schedule.lessons[k];
        let mut time = String::new();
        l.start_time.push_hm(&mut time);
        time.append("-");
        l.end_time.push_hm(&mut time);
        lines.push(LessonLine {
            time,
            title: l.title.clone(),
            cabinet: l.cabinet.clone(),
            teacher: l.teacher.clone(),
        });
        k = k + 1;
    }
    DayListing {
        date: schedule.date.to_text(),
        weekday: weekday_text(w),
        lesson_count: schedule.lessons.len(),
        lessons: lines,
    }
}

/// The terminal listing of all days, in order.
pub fn print_schedule(schedules: &[Schedule]) -> (res: Vec<DayListing>)
    requires
        forall|i: int| 0 <= i < schedules@.len() ==> (#[trigger] schedules@[i]).date.valid(),
    ensures
        res@.len() == schedules@.len(),
        forall|i: int| 0 <= i < schedules@.len() ==> day_listing_of(schedules@[i], #[trigger] res@[i]),
{
    let mut res: Vec<DayListing> = Vec::new();
    let mut i: usize = 0;
    while i < schedules.len()
        invariant
            i <= schedules@.len(),
            forall|a: int| 0 <= a < schedules@.len() ==> (#[trigger] schedules@[a]).date.valid(),
            res@.len() == i,
            forall|a: int| 0 <= a < i ==> day_listing_of(schedules@[a], #[trigger] res@[a]),
        decreases schedules@.len() - i,
    {
        res.push(day_listing(&schedules[i]));
        i = i + 1;
    }
    res
}

} // verus!

verus! {

/// Distinct lessons get distinct UIDs: the UID determines the group, the day
/// and the lesson's position, so events of different lessons never replace
/// one another.
pub proof fn lemma_lesson_uid_injective(g1: u32, d1: Date, o1: u32, g2: u32, d2: Date, o2: u32)
    requires
        lesson_uid(g1, d1, o1) == lesson_uid(g2, d2, o2),
    ensures
        g1 == g2,
        d1 == d2,
        o1 == o2,
{
    let p = "osa2cal-"@;
    let r1 = date_text(d1) + seq!['-'] + dec(o1 as nat);
    let r2 = date_text(d2) + seq!['-'] + dec(o2 as nat);
    let x1 = dec(g1 as nat) + seq!['-'] + r1;
    let x2 = dec(g2 as nat) + seq!['-'] + r2;
    assert(lesson_uid(g1, d1, o1) == p + x1) by {
        lemma_uid_shape(g1, d1, o1);
    }
    assert(lesson_uid(g2, d2, o2) == p + x2) by {
        lemma_uid_shape(g2, d2, o2);
    }
    lemma_strip_prefix(p, x1, x2);
    assert(g1 == g2 && r1 == r2) by {
        lemma_dec_value(g1 as nat);
        lemma_dec_value(g2 as nat);
        lemma_digits_lack(dec(g1 as nat), '-');
        lemma_digits_lack(dec(g2 as nat), '-');
        lemma_split_at_separator(dec(g1 as nat), r1, dec(g2 as nat), r2, '-');
        lemma_dec_injective(g1 as nat, g2 as nat);
    }
    lemma_date_split(d1, dec(o1 as nat), d2, dec(o2 as nat));
    lemma_dec_injective(o1 as nat, o2 as nat);
}

proof fn lemma_uid_shape(g: u32, d: Date, o: u32)
    ensures
        lesson_uid(g, d, o) == "osa2cal-"@ + (dec(g as nat) + seq!['-'] + (date_text(d) + seq!['-'] + dec(o as nat))),
{
    reveal_strlit("-");
    assert("-"@ =~= seq!['-']);
    assert(lesson_uid(g, d, o) =~= "osa2cal-"@ + (dec(g as nat) + seq!['-'] + (date_text(d) + seq!['-'] + dec(o as nat))));
}

proof fn lemma_strip_prefix(p: Seq<char>, a: Seq<char>, b: Seq<char>)
    requires
        p + a == p + b,
    ensures
        a == b,
{
    assert(a =~= (p + a).subrange(p.len() as int, (p + a).len() as int));
    assert(b =~= (p + b).subrange(p.len() as int, (p + b).len() as int));
}

/// A day's listing names the date's weekday as chrono's `Weekday` prints
/// it: counted from Monday, the names are Mon, Tue, Wed, Thu, Fri, Sat, Sun
/// in that order.
pub proof fn lemma_listing_weekday(s: Schedule, d: DayListing)
    requires
        day_listing_of(s, d),
    ensures
        d.weekday@ == "MonTueWedThuFriSatSun"@.subrange(
            3 * weekday_index(s.date),
            3 * weekday_index(s.date) + 3,
        ),
{
    let w = weekday_index(s.date);
    let all = "MonTueWedThuFriSatSun"@;
    reveal_strlit("MonTueWedThuFriSatSun");
    reveal_strlit("Mon");
    reveal_strlit("Tue");
    reveal_strlit("Wed");
    reveal_strlit("Thu");
    reveal_strlit("Fri");
    reveal_strlit("Sat");
    reveal_strlit("Sun");
    assert(0 <= w < 7);
    if w == 0 {
        assert(all.subrange(0, 3) =~= "Mon"@);
    } else if w == 1 {
        assert(all.subrange(3, 6) =~= "Tue"@);
    } else if w == 2 {
        assert(all.subrange(6, 9) =~= "Wed"@);
    } else if w == 3 {
        assert(all.subrange(9, 12) =~= "Thu"@);
    } else if w == 4 {
        assert(all.subrange(12, 15) =~= "Fri"@);
    } else if w == 5 {
        assert(all.subrange(15, 18) =~= "Sat"@);
    } else {
        assert(all.subrange(18, 21) =~= "Sun"@);
    }
}

} // verus!
