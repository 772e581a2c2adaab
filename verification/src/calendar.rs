//! Plain-value calendar dates and times of day, with the strict `HH:MM`
//! time-literal parser and its inverse.
//!
//! A task's date and times are modelled as their calendar fields; comparing
//! them field by field in lexicographic order agrees with calendar order.

use vstd::prelude::*;

use crate::text::trim_spec;

verus! {

/// A calendar date as year, month and day.
#[derive(Clone, Copy, PartialEq, Eq, Structural, Debug)]
pub struct Date {
    pub year: i32,
    pub month: u8,
    pub day: u8,
}

/// A time of day with minute precision, in the 24-hour clock.
#[derive(Clone, Copy, PartialEq, Eq, Structural, Debug)]
pub struct TimeOfDay {
    pub hour: u8,
    pub minute: u8,
}

/// `a` falls strictly before `b` in the calendar.
pub open spec fn date_before(a: Date, b: Date) -> bool {
    ||| a.year < b.year
    ||| (a.year == b.year && a.month < b.month)
    ||| (a.year == b.year && a.month == b.month && a.day < b.day)
}

/// `a` is no later in the day than `b`.
pub open spec fn time_le(a: TimeOfDay, b: TimeOfDay) -> bool {
    ||| a.hour < b.hour
    ||| (a.hour == b.hour && a.minute <= b.minute)
}

impl Date {
    pub fn new(year: i32, month: u8, day: u8) -> (r: Date)
        ensures
            r == (Date { year, month, day }),
    {
        Date { year, month, day }
    }

    /// Whether `self` falls strictly before `other`.
    pub fn before(&self, other: &Date) -> (r: bool)
        ensures
            r == date_before(*self, *other),
    {
        self.year < other.year || (self.year == other.year && self.month < other.month) || (
        self.year == other.year && self.month == other.month && self.day < other.day)
    }
}

impl TimeOfDay {
    /// The fields name an actual time of day.
    pub open spec fn wf(self) -> bool {
        self.hour < 24 && self.minute < 60
    }

    pub fn new(hour: u8, minute: u8) -> (r: TimeOfDay)
        ensures
            r == (TimeOfDay { hour, minute }),
    {
        TimeOfDay { hour, minute }
    }

    /// Whether `self` is no later in the day than `other`.
    pub fn le(&self, other: &TimeOfDay) -> (r: bool)
        ensures
            r == time_le(*self, *other),
    {
        self.hour < other.hour || (self.hour == other.hour && self.minute <= other.minute)
    }
}

pub open spec fn is_digit(c: char) -> bool {
    0x30 <= c as u32 <= 0x39
}

pub open spec fn digit_value(c: char) -> int {
    c as u32 - 0x30
}

/// `s` is a well-formed `HH:MM` 24-hour literal: exactly two digits, a colon,
/// and two digits, naming an hour below 24 and a minute below 60.
pub open spec fn hhmm_valid(s: Seq<char>) -> bool {
    &&& s.len() == 5
    &&& is_digit(s[0])
    &&& is_digit(s[1])
    &&& s[2] == ':'
    &&& is_digit(s[3])
    &&& is_digit(s[4])
    &&& 10 * digit_value(s[0]) + digit_value(s[1]) < 24
    &&& 10 * digit_value(s[3]) + digit_value(s[4]) < 60
}

/// The time of day a well-formed `HH:MM` literal names.
pub open spec fn hhmm_time(s: Seq<char>) -> TimeOfDay {
    TimeOfDay {
        hour: (10 * digit_value(s[0]) + digit_value(s[1])) as u8,
        minute: (10 * digit_value(s[3]) + digit_value(s[4])) as u8,
    }
}

/// What parsing a time literal yields: the named time for a well-formed
/// `HH:MM` literal, and nothing for anything else.
pub open spec fn parse_hhmm_spec(s: Seq<char>) -> Option<TimeOfDay> {
    if hhmm_valid(s) {
        Some(hhmm_time(s))
    } else {
        None
    }
}

/// What a raw time field stores: its trimmed text parsed as `HH:MM`, with any
/// malformed text coerced to no time at all.
pub open spec fn parse_time_field(s: Seq<char>) -> Option<TimeOfDay> {
    parse_hhmm_spec(trim_spec(s))
}

fn digit_of(c: char) -> (r: Option<u8>)
    ensures
        r is Some <==> is_digit(c),
        r is Some ==> r->0 == digit_value(c),
{
    let u = c as u32;
    if 0x30 <= u && u <= 0x39 {
        Some((u - 0x30) as u8)
    } else {
        None
    }
}

/// Parse a strict `HH:MM` 24-hour literal.
pub fn parse_hhmm(s: &Vec<char>) -> (r: Option<TimeOfDay>)
    ensures
        r == parse_hhmm_spec(s@),
        r is Some ==> r->0.wf(),
{
    if s.len() != 5 {
        return None;
    }
    if s[2] != ':' {
        return None;
    }
    let d0 = digit_of(s[0]);
    let d1 = digit_of(s[1]);
    let d3 = digit_of(s[3]);
    let d4 = digit_of(s[4]);
    match (d0, d1, d3, d4) {
        (Some(h10), Some(h1), Some(m10), Some(m1)) => {
            let hour = 10 * h10 + h1;
            let minute = 10 * m10 + m1;
            if hour < 24 && minute < 60 {
                Some(TimeOfDay { hour, minute })
            } else {
                None
            }
        },
        _ => None,
    }
}

/// Parse a raw time field: trim it, then read it as `HH:MM`.
pub fn parse_field(s: &Vec<char>) -> (r: Option<TimeOfDay>)
    ensures
        r == parse_time_field(s@),
        r is Some ==> r->0.wf(),
{
    let trimmed = crate::text::trim(s);
    parse_hhmm(&trimmed)
}

fn digit_char(d: u8) -> (r: char)
    requires
        d < 10,
    ensures
        is_digit(r),
        digit_value(r) == d,
{
    match d {
        0 => '0',
        1 => '1',
        2 => '2',
        3 => '3',
        4 => '4',
        5 => '5',
        6 => '6',
        7 => '7',
        8 => '8',
        _ => '9',
    }
}

impl TimeOfDay {
    /// Render as the `HH:MM` literal that parses back to `self`.
    pub fn render(&self) -> (r: Vec<char>)
        requires
            self.wf(),
        ensures
            r@.len() == 5,
            parse_hhmm_spec(r@) == Some(*self),
    {
        let mut r: Vec<char> = Vec::new();
        r.push(digit_char(self.hour / 10));
        r.push(digit_char(self.hour % 10));
        r.push(':');
        r.push(digit_char(self.minute / 10));
        r.push(digit_char(self.minute % 10));
        proof {
            assert(hhmm_valid(r@));
            assert(hhmm_time(r@) == *self);
        }
        r
    }
}

/// Append one typed character to a raw time field: only digits and `:` are
/// accepted, and only while the field is shorter than a full `HH:MM`
/// literal; any other keystroke leaves the field alone.
pub fn push_time_char(field: &mut Vec<char>, c: char)
    ensures
        old(field)@.len() < 5 && (is_digit(c) || c == ':') ==> final(field)@ == old(
            field,
        )@.push(c),
        !(old(field)@.len() < 5 && (is_digit(c) || c == ':')) ==> final(field)@ == old(field)@,
{
    if field.len() < 5 {
        let u = c as u32;
        if (0x30 <= u && u <= 0x39) || c == ':' {
            field.push(c);
        }
    }
}

} // verus!
