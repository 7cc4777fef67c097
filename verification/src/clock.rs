//! A time of day to the minute, as the text `HH:MM` and as a number of
//! minutes since midnight. Reading, shifting and writing a time are done by
//! the `chrono` crate; what is asked of it is stated here.

use vstd::prelude::*;

verus! {

/// The number of minutes in a day.
pub const MINUTES_PER_DAY: i64 = 1440;

/// Whether `c` is one of the ten decimal digits `0` to `9`.
pub open spec fn is_digit(c: char) -> bool {
    '0' <= c <= '9'
}

/// The number that the decimal digit `c` stands for.
pub open spec fn digit_value(c: char) -> int {
    c as int - '0' as int
}

/// The decimal digit that stands for `d`, a number from 0 to 9.
pub open spec fn digit_char(d: int) -> char {
    (d + '0' as int) as char
}

/// Whether `text` is made like `HH:MM`: two digits, a colon, two digits, and
/// nothing else.
pub open spec fn is_clock_shape(text: Seq<char>) -> bool {
    &&& text.len() == 5
    &&& is_digit(text[0])
    &&& is_digit(text[1])
    &&& text[2] == ':'
    &&& is_digit(text[3])
    &&& is_digit(text[4])
}

/// The hour that a text made like `HH:MM` names, from 0 to 99.
pub open spec fn hour_of(text: Seq<char>) -> int {
    10 * digit_value(text[0]) + digit_value(text[1])
}

/// The minute that a text made like `HH:MM` names, from 0 to 99.
pub open spec fn minute_of(text: Seq<char>) -> int {
    10 * digit_value(text[3]) + digit_value(text[4])
}

/// Whether `text` names a time of day: it is made like `HH:MM`, its hour is
/// at most 23 and its minute at most 59.
pub open spec fn is_clock_text(text: Seq<char>) -> bool {
    &&& is_clock_shape(text)
    &&& hour_of(text) <= 23
    &&& minute_of(text) <= 59
}

/// The minutes since midnight of the time that `text` names.
pub open spec fn minutes_of_text(text: Seq<char>) -> int {
    60 * hour_of(text) + minute_of(text)
}

/// The text `HH:MM` of the time that lies `minutes` after midnight.
pub open spec fn clock_text(minutes: int) -> Seq<char> {
    let hour = minutes / 60;
    let minute = minutes % 60;
    seq![
        digit_char(hour / 10),
        digit_char(hour % 10),
        ':',
        digit_char(minute / 10),
        digit_char(minute % 10),
    ]
}

/// The time of day that lies `offset` minutes after the time `minutes`,
/// both counted from midnight. A negative offset goes back. Whole days are
/// dropped, so the result is a time of day again.
pub open spec fn shifted(minutes: int, offset: int) -> int {
    (minutes + offset) % (MINUTES_PER_DAY as int)
}

/// Why a text was not taken as a time of day.
#[derive(Debug, Clone, Copy, PartialEq, Eq, Structural)]
pub enum ParseError {
    /// The text is not made like `HH:MM`.
    Malformed,
    /// The text is made like `HH:MM`, but there is no such hour or minute.
    OutOfRange,
}

/// Reads a text made like `HH:MM` with `chrono::NaiveTime::parse_from_str`
/// and the format `%H:%M`, and returns the hour and the minute of the time
/// read. Trusted: on such a text `chrono` reads each pair of digits as a
/// decimal number, refuses an hour above 23 and a minute above 59, and
/// otherwise returns the time with that hour and minute.
#[verifier::external_body]
fn parse_hour_minute(text: &str) -> (r: Option<(u32, u32)>)
    requires
        is_clock_shape(text@),
    ensures
        r is Some <==> is_clock_text(text@),
        r matches Some(time) ==> time.0 == hour_of(text@) && time.1 == minute_of(text@),
{
    match chrono::NaiveTime::parse_from_str(text, "%H:%M") {
        Ok(time) => Some((chrono::Timelike::hour(&time), chrono::Timelike::minute(&time))),
        Err(_) => None,
    }
}

/// Adds `delta` minutes to the time `hour:minute` with `chrono`'s `+` of a
/// `NaiveTime` and a `Duration`, and returns the hour and the minute of the
/// sum. Trusted: that sum wraps around at midnight and drops whole days.
#[verifier::external_body]
fn add_minutes(hour: u32, minute: u32, delta: i64) -> (r: (u32, u32))
    requires
        hour <= 23,
        minute <= 59,
        0 <= delta < MINUTES_PER_DAY,
    ensures
        r.0 <= 23,
        r.1 <= 59,
        60 * r.0 + r.1 == shifted(60 * hour + minute, delta as int),
{
    let start = chrono::NaiveTime::from_hms_opt(hour, minute, 0).unwrap();
    let time = start + chrono::Duration::minutes(delta);
    (chrono::Timelike::hour(&time), chrono::Timelike::minute(&time))
}

/// Writes the time `hour:minute` with `chrono::NaiveTime::format` and the
/// format `%H:%M`. Trusted: the result is the hour in two digits, a colon,
/// and the minute in two digits, each filled with a zero in front.
#[verifier::external_body]
fn format_hour_minute(hour: u32, minute: u32) -> (r: String)
    requires
        hour <= 23,
        minute <= 59,
    ensures
        r@ == clock_text(60 * hour + minute),
{
    chrono::NaiveTime::from_hms_opt(hour, minute, 0).unwrap().format("%H:%M").to_string()
}

/// A time of day to the minute, without a date.
#[derive(Debug, Clone, Copy, PartialEq, Eq, Structural)]
pub struct ClockTime {
    hour: u32,
    minute: u32,
}

impl View for ClockTime {
    type V = int;

    /// The minutes since midnight.
    closed spec fn view(&self) -> int {
        60 * self.hour + self.minute
    }
}

impl ClockTime {
    /// Whether this is a time of day: its hour is at most 23 and its
    /// minute at most 59. Every `ClockTime` that a program holds is one.
    #[verifier::type_invariant]
    pub closed spec fn wf(self) -> bool {
        self.hour <= 23 && self.minute <= 59
    }

    /// The time of day that lies `minutes` after midnight, for `minutes`
    /// from 0 up to a day.
    pub closed spec fn at(minutes: int) -> ClockTime {
        ClockTime { hour: (minutes / 60) as u32, minute: (minutes % 60) as u32 }
    }

    /// What reading `text` as a time of day gives: the time, if `text` is
    /// exactly `HH:MM` on the 24-hour clock, and else the reason why not.
    pub open spec fn parsed(text: Seq<char>) -> Result<ClockTime, ParseError> {
        if !is_clock_shape(text) {
            Err(ParseError::Malformed)
        } else if !is_clock_text(text) {
            Err(ParseError::OutOfRange)
        } else {
            Ok(ClockTime::at(minutes_of_text(text)))
        }
    }

    /// A time of day is the one that lies its own number of minutes after
    /// midnight, and that number is less than a day.
    pub proof fn lemma_at_view(self)
        requires
            self.wf(),
        ensures
            0 <= self@ < MINUTES_PER_DAY,
            ClockTime::at(self@) == self,
    {
    }

    /// The time that lies `minutes` after midnight is a time of day with
    /// that many minutes, if `minutes` is less than a day.
    pub proof fn lemma_view_at(minutes: int)
        requires
            0 <= minutes < MINUTES_PER_DAY,
        ensures
            ClockTime::at(minutes).wf(),
            ClockTime::at(minutes)@ == minutes,
    {
    }

    /// The time `hour:minute`, if there is such a time of day.
    pub fn new(hour: u32, minute: u32) -> (r: Option<ClockTime>)
        ensures
            r is Some <==> hour <= 23 && minute <= 59,
            r matches Some(time) ==> time.wf() && time@ == 60 * hour + minute,
    {
        if hour <= 23 && minute <= 59 {
            Some(ClockTime { hour, minute })
        } else {
            None
        }
    }

    /// The hour, from 0 to 23.
    pub fn hour(&self) -> (r: u32)
        ensures
            r == self@ / 60,
            r <= 23,
    {
        proof {
            use_type_invariant(self);
        }
        self.hour
    }

    /// The minute, from 0 to 59.
    pub fn minute(&self) -> (r: u32)
        ensures
            r == self@ % 60,
            r <= 59,
    {
        proof {
            use_type_invariant(self);
        }
        self.minute
    }

    /// Reads a time of day from a text that is exactly `HH:MM` on the
    /// 24-hour clock. A text of another make is `Malformed`, also where
    /// only a zero in front is missing; an hour above 23 or a minute above
    /// 59 is `OutOfRange`.
    pub fn parse(text: &str) -> (r: Result<ClockTime, ParseError>)
        ensures
            r == ClockTime::parsed(text@),
            r matches Ok(time) ==> time.wf() && time@ == minutes_of_text(text@),
    {
        if !has_clock_shape(text) {
            return Err(ParseError::Malformed);
        }
        match parse_hour_minute(text) {
            Some((hour, minute)) => Ok(ClockTime { hour, minute }),
            None => Err(ParseError::OutOfRange),
        }
    }

    /// The time of day `offset` minutes after this one; before it, if
    /// `offset` is negative. The result wraps around at midnight.
    pub fn plus_minutes(&self, offset: i64) -> (r: ClockTime)
        ensures
            r.wf(),
            r@ == shifted(self@, offset as int),
    {
        proof {
            use_type_invariant(self);
        }
        let delta: i64 = offset.checked_rem_euclid(MINUTES_PER_DAY).unwrap();
        assert(shifted(self@, delta as int) == shifted(self@, offset as int)) by {
            lemma_shift_by_remainder(self@, offset as int);
        }
        let (hour, minute) = add_minutes(self.hour, self.minute, delta);
        ClockTime { hour, minute }
    }

    /// This time as the text `HH:MM`.
    pub fn to_text(&self) -> (r: String)
        ensures
            r@ == clock_text(self@),
    {
        proof {
            use_type_invariant(self);
        }
        format_hour_minute(self.hour, self.minute)
    }
}

/// Whether `c` is one of the ten decimal digits.
fn is_digit_char(c: char) -> (r: bool)
    ensures
        r == is_digit(c),
{
    '0' <= c && c <= '9'
}

/// Whether `text` is made like `HH:MM`.
pub fn has_clock_shape(text: &str) -> (r: bool)
    ensures
        r == is_clock_shape(text@),
{
    if text.unicode_len() != 5 {
        return false;
    }
    is_digit_char(text.get_char(0)) && is_digit_char(text.get_char(1)) && text.get_char(2) == ':'
        && is_digit_char(text.get_char(3)) && is_digit_char(text.get_char(4))
}

/// Shifting by an offset and shifting by what is left of the offset when
/// whole days are taken from it lead to the same time.
pub proof fn lemma_shift_by_remainder(minutes: int, offset: int)
    ensures
        shifted(minutes, offset % (MINUTES_PER_DAY as int)) == shifted(minutes, offset),
{
    let day = MINUTES_PER_DAY as int;
    vstd::arithmetic::div_mod::lemma_add_mod_noop(minutes, offset, day);
    vstd::arithmetic::div_mod::lemma_mod_twice(offset, day);
    vstd::arithmetic::div_mod::lemma_add_mod_noop(minutes, offset % day, day);
}

/// A time of day written as `HH:MM` and read again is the same time, and
/// what is written is a text that names a time of day.
pub proof fn lemma_write_then_read(minutes: int)
    requires
        0 <= minutes < MINUTES_PER_DAY,
    ensures
        is_clock_text(clock_text(minutes)),
        minutes_of_text(clock_text(minutes)) == minutes,
        ClockTime::parsed(clock_text(minutes)) == Ok::<ClockTime, ParseError>(
            ClockTime::at(minutes),
        ),
{
}

/// A text that names a time of day, read and written again, is the same
/// text.
pub proof fn lemma_read_then_write(text: Seq<char>)
    requires
        is_clock_text(text),
    ensures
        0 <= minutes_of_text(text) < MINUTES_PER_DAY,
        clock_text(minutes_of_text(text)) == text,
{
    assert(clock_text(minutes_of_text(text)) =~= text);
}

/// A shifted time is a time of day again, whatever the offset.
pub proof fn lemma_shifted_in_day(minutes: int, offset: int)
    ensures
        0 <= shifted(minutes, offset) < MINUTES_PER_DAY,
{
}

} // verus!
