//! Calendar dates and wall-clock times as plain values, with the textual
//! forms used in schedules, UIDs and iCalendar data.
use vstd::prelude::*;
use crate::text::{all_digits, lemma_dec_len_bound, lemma_digits_lack, lemma_pad_injective, lemma_pad_value, lemma_split_at_separator, pad_dec, push_char, push_padded};
use vstd::arithmetic::div_mod::lemma_fundamental_div_mod_converse;
use chrono::Datelike;
use chrono::Timelike;

verus! {

/// The smallest year a calendar date can have.
pub const MIN_YEAR: i32 = -262143i32;
/// The largest year a calendar date can have.
pub const MAX_YEAR: i32 = 262142i32;

/// A day of the proleptic Gregorian calendar.
#[derive(Clone, Copy, Debug, PartialEq, Eq, Structural)]
pub struct Date {
    pub year: i32,
    pub month: u32,
    pub day: u32,
}

/// A time of day, to the second.
#[derive(Clone, Copy, Debug, PartialEq, Eq, Structural)]
pub struct Time {
    pub hour: u32,
    pub minute: u32,
    pub second: u32,
}

/// A date and a time of day, without a time zone.
#[derive(Clone, Copy, Debug, PartialEq, Eq, Structural)]
pub struct DateTime {
    pub date: Date,
    pub time: Time,
}

pub open spec fn is_leap_year(y: int) -> bool {
    y % 4 == 0 && (y % 100 != 0 || y % 400 == 0)
}

pub open spec fn days_in_month(y: int, m: int) -> int {
    if m == 2 {
        if is_leap_year(y) { 29 } else { 28 }
    } else if m == 4 || m == 6 || m == 9 || m == 11 {
        30
    } else {
        31
    }
}

impl Date {
    /// The date exists in the calendar and lies in the representable range.
    pub open spec fn valid(self) -> bool {
        &&& MIN_YEAR <= self.year <= MAX_YEAR
        &&& 1 <= self.month <= 12
        &&& 1 <= self.day <= days_in_month(self.year as int, self.month as int)
    }

    /// The date with these fields, if it exists.
    pub fn new(year: i32, month: u32, day: u32) -> (res: Option<Date>)
        ensures
            match res {
                Some(d) => d == (Date { year, month, day }) && d.valid(),
                None => !(Date { year, month, day }).valid(),
            },
    {
        if year < MIN_YEAR || year > MAX_YEAR || month < 1 || month > 12 || day < 1 {
            return None;
        }
        let leap = year % 4 == 0 && (year % 100 != 0 || year % 400 == 0);
        let dim: u32 = if month == 2 {
            if leap { 29 } else { 28 }
        } else if month == 4 || month == 6 || month == 9 || month == 11 {
            30
        } else {
            31
        };
        proof {
            assert(leap == is_leap_year(year as int)) by {
                assert((year as int) % 4 == (year % 4) as int);
            }
        }
        if day > dim {
            None
        } else {
            Some(Date { year, month, day })
        }
    }
}

impl Time {
    /// A time of day: hours below 24, minutes and seconds below 60.
    pub open spec fn valid(self) -> bool {
        self.hour < 24 && self.minute < 60 && self.second < 60
    }

    /// The time with these fields, if it is a time of day.
    pub fn new(hour: u32, minute: u32, second: u32) -> (res: Option<Time>)
        ensures
            match res {
                Some(t) => t == (Time { hour, minute, second }) && t.valid(),
                None => !(Time { hour, minute, second }).valid(),
            },
    {
        if hour < 24 && minute < 60 && second < 60 {
            Some(Time { hour, minute, second })
        } else {
            None
        }
    }
}

impl DateTime {
    pub open spec fn valid(self) -> bool {
        self.date.valid() && self.time.valid()
    }
}

/// The year as chrono writes it for `%Y` and in a date's display form: four
/// digits for years 0 to 9999, otherwise a sign and at least four digits.
pub open spec fn year_text(y: int) -> Seq<char> {
    if 0 <= y <= 9999 {
        pad_dec(y as nat, 4)
    } else if y < 0 {
        seq!['-'] + pad_dec((-y) as nat, 4)
    } else {
        seq!['+'] + pad_dec(y as nat, 4)
    }
}

/// A two-digit, zero-padded field.
pub open spec fn two(n: int) -> Seq<char> {
    pad_dec(n as nat, 2)
}

/// `YYYY-MM-DD`, the display form of a date.
pub open spec fn date_text(d: Date) -> Seq<char> {
    year_text(d.year as int) + seq!['-'] + two(d.month as int) + seq!['-'] + two(d.day as int)
}

/// `YYYYMMDDTHHMMSS`, the iCalendar form of a date-time without a zone.
pub open spec fn compact_text(dt: DateTime) -> Seq<char> {
    year_text(dt.date.year as int) + two(dt.date.month as int) + two(dt.date.day as int)
        + seq!['T'] + two(dt.time.hour as int) + two(dt.time.minute as int) + two(
        dt.time.second as int,
    )
}

/// `HH:MM`.
pub open spec fn hm_text(t: Time) -> Seq<char> {
    two(t.hour as int) + seq![':'] + two(t.minute as int)
}

/// Days from 1970-01-01 to the given day of the proleptic Gregorian calendar.
pub open spec fn days_from_civil(y: int, m: int, d: int) -> int {
    let y1 = if m <= 2 { y - 1 } else { y };
    let era = y1 / 400;
    let yoe = y1 - era * 400;
    let mp = if m > 2 { m - 3 } else { m + 9 };
    let doy = (153 * mp + 2) / 5 + d - 1;
    let doe = yoe * 365 + yoe / 4 - yoe / 100 + doy;
    era * 146097 + doe - 719468
}

/// The day of the week counted from Monday (0) to Sunday (6).
pub open spec fn weekday_index(d: Date) -> int {
    (days_from_civil(d.year as int, d.month as int, d.day as int) + 3) % 7
}

fn push_year(s: &mut String, y: i32)
    ensures
        final(s)@ == old(s)@ + year_text(y as int),
{
    if 0 <= y && y <= 9999 {
        push_padded(s, y as u64, 4);
    } else if y < 0 {
        push_char(s, '-');
        let a: i64 = -(y as i64);
        push_padded(s, a as u64, 4);
    } else {
        push_char(s, '+');
        push_padded(s, y as u64, 4);
    }
    assert(final(s)@ =~= old(s)@ + year_text(y as int));
}

fn push_two(s: &mut String, n: u32)
    ensures
        final(s)@ == old(s)@ + two(n as int),
{
    push_padded(s, n as u64, 2);
}

impl Date {
    /// Appends the display form `YYYY-MM-DD`.
    pub fn push_text(&self, s: &mut String)
        ensures
            final(s)@ == old(s)@ + date_text(*self),
    {
        push_year(s, self.year);
        push_char(s, '-');
        push_two(s, self.month);
        push_char(s, '-');
        push_two(s, self.day);
        assert(final(s)@ =~= old(s)@ + date_text(*self));
    }

    /// The display form `YYYY-MM-DD`.
    pub fn to_text(&self) -> (res: String)
        ensures
            res@ == date_text(*self),
    {
        let mut s = String::new();
        self.push_text(&mut s);
        assert(s@ =~= date_text(*self));
        s
    }
}

impl DateTime {
    /// Appends `YYYYMMDDTHHMMSS`.
    pub fn push_compact(&self, s: &mut String)
        ensures
            final(s)@ == old(s)@ + compact_text(*self),
    {
        push_year(s, self.date.year);
        push_two(s, self.date.month);
        push_two(s, self.date.day);
        push_char(s, 'T');
        push_two(s, self.time.hour);
        push_two(s, self.time.minute);
        push_two(s, self.time.second);
        assert(final(s)@ =~= old(s)@ + compact_text(*self));
    }
}

impl Time {
    /// Appends `HH:MM`.
    pub fn push_hm(&self, s: &mut String)
        ensures
            final(s)@ == old(s)@ + hm_text(*self),
    {
        push_two(s, self.hour);
        push_char(s, ':');
        push_two(s, self.minute);
        assert(final(s)@ =~= old(s)@ + hm_text(*self));
    }
}

/// The current UTC date and time from the system clock (`chrono::Utc::now`),
/// to the second. Nothing is claimed of which instant it is; the fields always
/// form a valid date and time of day.
#[verifier::external_body]
pub(crate) fn utc_now() -> (res: DateTime)
    ensures
        res.valid(),
{
    let now = chrono::Utc::now();
    DateTime {
        date: Date { year: now.year(), month: now.month(), day: now.day() },
        time: Time { hour: now.hour(), minute: now.minute(), second: now.second() },
    }
}

/// The day of the week of a date, Monday being 0
/// (`chrono::NaiveDate::weekday` and `Weekday::num_days_from_monday`).
#[verifier::external_body]
pub(crate) fn weekday_from_monday(d: Date) -> (res: u32)
    requires
        d.valid(),
    ensures
        res as int == weekday_index(d),
{
    chrono::NaiveDate::from_ymd_opt(d.year, d.month, d.day).unwrap().weekday().num_days_from_monday()
}

} // verus!

verus! {

proof fn lemma_pad_first_digit(n: nat, w: nat)
    ensures
        pad_dec(n, w).len() >= 1,
        48 <= pad_dec(n, w)[0] as int <= 57,
        all_digits(pad_dec(n, w)),
        !pad_dec(n, w).contains('-'),
{
    lemma_dec_len_bound(n);
    lemma_pad_value(n, w);
    lemma_digits_lack(pad_dec(n, w), '-');
}

/// A year written before a `-` is read back from the text.
pub proof fn lemma_year_split(y1: int, r1: Seq<char>, y2: int, r2: Seq<char>)
    requires
        year_text(y1) + seq!['-'] + r1 == year_text(y2) + seq!['-'] + r2,
    ensures
        y1 == y2,
        r1 == r2,
{
    let s1 = year_text(y1) + seq!['-'] + r1;
    let s2 = year_text(y2) + seq!['-'] + r2;
    lemma_pad_first_digit((if y1 < 0 { -y1 } else { y1 }) as nat, 4);
    lemma_pad_first_digit((if y2 < 0 { -y2 } else { y2 }) as nat, 4);
    let p1 = pad_dec((if y1 < 0 { -y1 } else { y1 }) as nat, 4);
    let p2 = pad_dec((if y2 < 0 { -y2 } else { y2 }) as nat, 4);
    let k1: int = if 0 <= y1 <= 9999 { 0 } else if y1 < 0 { 1 } else { 2 };
    let k2: int = if 0 <= y2 <= 9999 { 0 } else if y2 < 0 { 1 } else { 2 };
    assert(s1[0] == s2[0]);
    if k1 == 0 {
        assert(s1[0] == p1[0]);
    } else if k1 == 1 {
        assert(s1[0] == '-');
    } else {
        assert(s1[0] == '+');
    }
    if k2 == 0 {
        assert(s2[0] == p2[0]);
    } else if k2 == 1 {
        assert(s2[0] == '-');
    } else {
        assert(s2[0] == '+');
    }
    assert(k1 == k2);
    if k1 == 0 {
        lemma_split_at_separator(p1, r1, p2, r2, '-');
        lemma_pad_injective(y1 as nat, y2 as nat, 4);
    } else {
        let c = if k1 == 1 { '-' } else { '+' };
        assert(s1 =~= seq![c] + (p1 + seq!['-'] + r1));
        assert(s2 =~= seq![c] + (p2 + seq!['-'] + r2));
        assert(p1 + seq!['-'] + r1 =~= s1.drop_first());
        assert(p2 + seq!['-'] + r2 =~= s2.drop_first());
        lemma_split_at_separator(p1, r1, p2, r2, '-');
        if k1 == 1 {
            lemma_pad_injective((-y1) as nat, (-y2) as nat, 4);
        } else {
            lemma_pad_injective(y1 as nat, y2 as nat, 4);
        }
    }
}

/// A date written before a `-` is read back from the text.
pub proof fn lemma_date_split(d1: Date, r1: Seq<char>, d2: Date, r2: Seq<char>)
    requires
        date_text(d1) + seq!['-'] + r1 == date_text(d2) + seq!['-'] + r2,
    ensures
        d1 == d2,
        r1 == r2,
{
    let m1 = two(d1.month as int);
    let m2 = two(d2.month as int);
    let a1 = two(d1.day as int);
    let a2 = two(d2.day as int);
    let t1 = m1 + seq!['-'] + a1 + seq!['-'] + r1;
    let t2 = m2 + seq!['-'] + a2 + seq!['-'] + r2;
    assert(date_text(d1) + seq!['-'] + r1 =~= year_text(d1.year as int) + seq!['-'] + t1);
    assert(date_text(d2) + seq!['-'] + r2 =~= year_text(d2.year as int) + seq!['-'] + t2);
    lemma_year_split(d1.year as int, t1, d2.year as int, t2);
    lemma_pad_first_digit(d1.month as nat, 2);
    lemma_pad_first_digit(d2.month as nat, 2);
    lemma_pad_first_digit(d1.day as nat, 2);
    lemma_pad_first_digit(d2.day as nat, 2);
    assert(t1 =~= m1 + seq!['-'] + (a1 + seq!['-'] + r1));
    assert(t2 =~= m2 + seq!['-'] + (a2 + seq!['-'] + r2));
    lemma_split_at_separator(m1, a1 + seq!['-'] + r1, m2, a2 + seq!['-'] + r2, '-');
    lemma_split_at_separator(a1, r1, a2, r2, '-');
    lemma_pad_injective(d1.month as nat, d2.month as nat, 2);
    lemma_pad_injective(d1.day as nat, d2.day as nat, 2);
}

/// Month lengths agree with the count of days: the first day of the next
/// month comes `days_in_month(y, m)` days after the first day of month `m`
/// (December's next month being January of the next year). So August,
/// like July, has 31 days, and September 30.
pub proof fn lemma_month_length_by_days(y: int, m: int)
    requires
        1 <= m <= 12,
    ensures
        days_from_civil(if m == 12 { y + 1 } else { y }, if m == 12 { 1 } else { m + 1 }, 1) - days_from_civil(y, m, 1)
            == days_in_month(y, m),
{
    if m == 2 {
        lemma_year_days(y);
    }
}

/// February's length is the step in the count of days from its first day
/// to the first of March.
proof fn lemma_year_days(y: int)
    ensures
        days_from_civil(y, 3, 1) - days_from_civil(y, 2, 1) == days_in_month(y, 2),
{
    let q = y / 400;
    let r = y % 400;
    assert(0 <= r < 400);
    assert(y == q * 400 + r) by {
        vstd::arithmetic::div_mod::lemma_fundamental_div_mod(y, 400);
    }
    let a = y - 1;
    if r == 0 {
        lemma_fundamental_div_mod_converse(a, 400, q - 1, 399);
        lemma_fundamental_div_mod_converse(y, 4, q * 100, 0);
        lemma_fundamental_div_mod_converse(y, 100, q * 4, 0);
        assert(days_from_civil(y, 2, 1) == (q - 1) * 146097 + 399 * 365 + 99 - 3 + 337 - 719468);
        assert(days_from_civil(y, 3, 1) == q * 146097 - 719468);
    } else {
        lemma_fundamental_div_mod_converse(a, 400, q, r - 1);
        lemma_fundamental_div_mod_converse(y, 4, q * 100 + r / 4, r % 4);
        lemma_fundamental_div_mod_converse(y, 100, q * 4 + r / 100, r % 100);
        assert(days_from_civil(y, 2, 1) == q * 146097 + (r - 1) * 365 + (r - 1) / 4 - (r - 1) / 100 + 337 - 719468);
        assert(days_from_civil(y, 3, 1) == q * 146097 + r * 365 + r / 4 - r / 100 - 719468);
        assert(r / 4 - (r - 1) / 4 == if r % 4 == 0 { 1int } else { 0 });
        assert(r / 100 - (r - 1) / 100 == if r % 100 == 0 { 1int } else { 0 });
    }
}
} // verus!
