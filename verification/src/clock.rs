//! The wall clock and the calendar: reading the time, and writing times and
//! moments as text.

use vstd::prelude::*;
use vstd::string::*;
use chrono::{Datelike, Timelike};
use crate::time::{LocalNow, Moment, TimeOfDay, Weekday, SECONDS_PER_DAY};

verus! {

/// The character of the digit `d`, for `d` below 10.
pub open spec fn spec_digit(d: nat) -> char {
    (48 + d) as char
}

/// A time of day as hour and minute, two digits each, with a colon between.
pub open spec fn spec_format_time(secs: nat) -> Seq<char> {
    let hour = secs / 3600;
    let minute = (secs / 60) % 60;
    seq![
        spec_digit(hour / 10),
        spec_digit(hour % 10),
        ':',
        spec_digit(minute / 10),
        spec_digit(minute % 10),
    ]
}

/// Day and month, hour and minute of a moment, as in `24.12 18:30`; none for
/// a moment that the calendar does not reach.
pub open spec fn spec_format_datetime(secs: int) -> Option<Seq<char>> {
    spec_format_moment(secs, "%d.%m %H:%M"@)
}

/// The time of day that a text such as `09:05:00` writes: seconds since
/// midnight, or none where the text is no time.
pub uninterp spec fn spec_parse_clock_time(text: Seq<char>) -> Option<nat>;

/// The moment that a text such as `2024-12-24T18:30` writes: seconds since
/// the start of 1970, or none where the text is no moment.
pub uninterp spec fn spec_parse_datetime(text: Seq<char>) -> Option<int>;

/// A moment written in a pattern of the calendar, as in `24.12 18:30` for
/// `%d.%m %H:%M`; none for a moment that the calendar does not reach.
pub uninterp spec fn spec_format_moment(secs: int, pattern: Seq<char>) -> Option<Seq<char>>;

/// A moment as a date and time field takes it, as in `2024-12-24T18:30`.
pub open spec fn spec_format_datetime_input(secs: int) -> Option<Seq<char>> {
    spec_format_moment(secs, "%Y-%m-%dT%H:%M"@)
}

/// The day of the week that a name such as `Mon` or `monday` stands for, in
/// days since Monday; none where the text names no day.
pub uninterp spec fn spec_parse_weekday(text: Seq<char>) -> Option<nat>;

/// Reads the name of a day of the week.
///
/// Calls `str::parse` for `chrono::Weekday` and, where it accepts the text,
/// `num_days_from_monday`. The outcome depends on the text alone, and the
/// contract gives it a name; chrono documents the number as 0 to 6.
#[verifier::external_body]
fn parse_weekday_index(text: &str) -> (index: Option<u32>)
    ensures
        index is Some == spec_parse_weekday(text@) is Some,
        index matches Some(i) ==> spec_parse_weekday(text@) == Some(i as nat) && i < 7,
{
    match text.parse::<chrono::Weekday>() {
        Ok(day) => Some(day.num_days_from_monday()),
        Err(_) => None,
    }
}

/// The day of the week that a button of the week row is labelled with.
pub fn parse_weekday(text: &str) -> (day: Option<Weekday>)
    ensures
        day is Some == spec_parse_weekday(text@) is Some,
        day matches Some(d) ==> spec_parse_weekday(text@) == Some(d.spec_index()),
{
    match parse_weekday_index(text) {
        Some(index) => Weekday::from_index(index),
        None => None,
    }
}

/// Reads a time of day written as hours, minutes and seconds.
///
/// Calls `chrono::NaiveTime::parse_from_str` with the pattern `%H:%M:%S`
/// and, where it accepts the text, `num_seconds_from_midnight`. The outcome
/// depends on the text alone, and the contract gives it a name; chrono
/// documents the seconds as below 86 400.
#[verifier::external_body]
fn parse_clock_time(text: &str) -> (secs: Option<u32>)
    ensures
        secs is Some == spec_parse_clock_time(text@) is Some,
        secs matches Some(s) ==> spec_parse_clock_time(text@) == Some(s as nat) && s < SECONDS_PER_DAY,
{
    match chrono::NaiveTime::parse_from_str(text, "%H:%M:%S") {
        Ok(time) => Some(time.num_seconds_from_midnight()),
        Err(_) => None,
    }
}

/// The time of day that a time field holds. The field writes hours and
/// minutes, as in `09:05`; the seconds are taken as zero. A text that is no
/// time gives none.
pub fn parse_time_input(text: &str) -> (time: Option<TimeOfDay>)
    ensures
        time is Some == spec_parse_clock_time(text@ + ":00"@) is Some,
        time matches Some(t) ==> spec_parse_clock_time(text@ + ":00"@) == Some(t@),
{
    let mut full = String::from_str(text);
    full.append(":00");
    match parse_clock_time(full.as_str()) {
        Some(secs) => TimeOfDay::from_seconds(secs),
        None => None,
    }
}

/// Reads a moment written as date, `T`, hours and minutes.
///
/// Calls `chrono::NaiveDateTime::parse_from_str` with the pattern
/// `%Y-%m-%dT%H:%M` and, where it accepts the text, `and_utc` and
/// `timestamp`. The outcome depends on the text alone, and the contract
/// gives it a name.
#[verifier::external_body]
fn parse_naive_datetime(text: &str) -> (secs: Option<i64>)
    ensures
        secs is Some == spec_parse_datetime(text@) is Some,
        secs matches Some(s) ==> spec_parse_datetime(text@) == Some(s as int),
{
    match chrono::NaiveDateTime::parse_from_str(text, "%Y-%m-%dT%H:%M") {
        Ok(moment) => Some(moment.and_utc().timestamp()),
        Err(_) => None,
    }
}

/// The moment that a date and time field holds, as in `2024-12-24T18:30`.
/// A text that is no moment gives none.
pub fn parse_datetime_input(text: &str) -> (moment: Option<Moment>)
    ensures
        moment is Some == spec_parse_datetime(text@) is Some,
        moment matches Some(m) ==> spec_parse_datetime(text@) == Some(m@),
{
    match parse_naive_datetime(text) {
        Some(secs) => Some(Moment { secs }),
        None => None,
    }
}

/// Whether `pattern` is one of the two patterns in which moments are
/// written: for listings and for date and time fields.
pub open spec fn spec_is_moment_pattern(pattern: Seq<char>) -> bool {
    pattern == "%d.%m %H:%M"@ || pattern == "%Y-%m-%dT%H:%M"@
}

/// Writes a moment in one of the two patterns.
///
/// Calls `chrono::DateTime::from_timestamp`, which refuses a moment that the
/// calendar does not reach, then `naive_utc` and `format` with the pattern.
/// The text depends on the moment and the pattern alone, and the contract
/// gives it a name.
#[verifier::external_body]
fn moment_text(secs: i64, pattern: &str) -> (text: Option<String>)
    requires
        spec_is_moment_pattern(pattern@),
    ensures
        text is Some == spec_format_moment(secs as int, pattern@) is Some,
        text matches Some(t) ==> spec_format_moment(secs as int, pattern@) == Some(t@),
{
    match chrono::DateTime::from_timestamp(secs, 0) {
        Some(moment) => Some(moment.naive_utc().format(pattern).to_string()),
        None => None,
    }
}

/// A moment as a date and time field takes it, as in `2024-12-24T18:30`.
/// There is no text for a moment that the calendar does not reach.
pub fn format_datetime_input(datetime: &Moment) -> (text: Option<String>)
    ensures
        text is Some == spec_format_datetime_input(datetime@) is Some,
        text matches Some(t) ==> spec_format_datetime_input(datetime@) == Some(t@),
{
    moment_text(datetime.secs, "%Y-%m-%dT%H:%M")
}

/// Reads the clock once: seconds since the start of 1970 in universal time,
/// the same on the local wall clock, and the wall clock's days since Monday
/// and seconds since midnight.
///
/// Calls `chrono::Local::now`, then `timestamp`, `naive_local` with
/// `and_utc` and `timestamp`, `weekday` with `num_days_from_monday`, and
/// `num_seconds_from_midnight`. The reading differs from call to call; the
/// contract claims only the ranges that chrono documents for the last two.
#[verifier::external_body]
fn read_local_clock() -> (reading: (i64, i64, u32, u32))
    ensures
        reading.2 < 7,
        reading.3 < SECONDS_PER_DAY,
{
    let now = chrono::Local::now();
    let wall = now.naive_local();
    (
        now.timestamp(),
        wall.and_utc().timestamp(),
        wall.weekday().num_days_from_monday(),
        wall.time().num_seconds_from_midnight(),
    )
}

/// Writes a time of day with `chrono::NaiveTime::format` and the pattern
/// `%H:%M`.
///
/// chrono documents `%H` and `%M` as the hour and the minute, each padded
/// with a zero to two digits; the contract states that text.
#[verifier::external_body]
fn hour_minute_text(secs: u32) -> (text: String)
    requires
        secs < SECONDS_PER_DAY,
    ensures
        text@ == spec_format_time(secs as nat),
{
    chrono::NaiveTime::from_num_seconds_from_midnight_opt(secs, 0).unwrap().format("%H:%M").to_string()
}

/// Reads the clock in universal time: microseconds since the start of 1970,
/// and the same instant written as year, month, day, hour and minute.
///
/// Calls `chrono::Utc::now`, then `timestamp_micros` and `format` with the
/// pattern `%Y.%m.%d %H:%M`. Both depend on when the call is made; the
/// contract claims nothing of them.
#[verifier::external_body]
pub(crate) fn utc_stamp() -> (stamp: (i64, String))
{
    let now = chrono::Utc::now();
    (now.timestamp_micros(), now.format("%Y.%m.%d %H:%M").to_string())
}

/// An identifier made from the current time: the seconds since the start
/// of 1970, in decimal.
pub(crate) fn timestamp_id() -> (id: String)
    ensures
        exists|secs: i64| id@ == spec_integer_text(secs as int),
{
    let reading = read_local_clock();
    integer_text(reading.0)
}

/// A natural number in decimal, without leading zeros.
pub open spec fn spec_natural_text(n: nat) -> Seq<char>
    decreases n,
{
    if n < 10 {
        seq![spec_digit(n)]
    } else {
        spec_natural_text(n / 10).push(spec_digit(n % 10))
    }
}

/// An integer in decimal: a minus sign before a negative number, and no
/// sign before any other.
pub open spec fn spec_integer_text(n: int) -> Seq<char> {
    if n < 0 {
        seq!['-'] + spec_natural_text((-n) as nat)
    } else {
        spec_natural_text(n as nat)
    }
}

/// Appends a natural number in decimal.
fn push_natural(text: &mut String, n: u64)
    ensures
        final(text)@ == old(text)@ + spec_natural_text(n as nat),
    decreases n,
{
    if n >= 10 {
        push_natural(text, n / 10);
    }
    let digit: u8 = (n % 10) as u8;
    let shown: char = (48 + digit) as char;
    assert(shown == spec_digit((n % 10) as nat));
    crate::text::push_char(text, shown);
    assert(text@ =~= old(text)@ + spec_natural_text(n as nat));
}

/// Writes an integer in decimal.
pub fn integer_text(n: i64) -> (text: String)
    ensures
        text@ == spec_integer_text(n as int),
{
    let mut text = String::new();
    if n < 0 {
        crate::text::push_char(&mut text, '-');
        let magnitude: u64 = ((-(n + 1)) as u64) + 1;
        push_natural(&mut text, magnitude);
        assert(text@ =~= seq!['-'] + spec_natural_text((-n) as nat));
    } else {
        push_natural(&mut text, n as u64);
        assert(text@ =~= spec_natural_text(n as nat));
    }
    text
}

/// The current time on the local wall clock.
pub fn local_now() -> (now: LocalNow)
    ensures
        now.time@ < SECONDS_PER_DAY,
{
    let reading = read_local_clock();
    let weekday = Weekday::from_index(reading.2).unwrap();
    let time = TimeOfDay::from_seconds(reading.3).unwrap();
    LocalNow { moment: Moment { secs: reading.1 }, weekday, time }
}

/// A time of day as listings show it: hour and minute, as in `09:05`.
pub fn format_time(datetime: &TimeOfDay) -> (text: String)
    ensures
        text@ == spec_format_time(datetime@),
{
    hour_minute_text(datetime.seconds())
}

/// A moment as listings show it: day and month, hour and minute, as in
/// `24.12 18:30`. There is no text for a moment that the calendar does not
/// reach.
pub fn format_datetime(datetime: &Moment) -> (text: Option<String>)
    ensures
        text is Some == spec_format_datetime(datetime@) is Some,
        text matches Some(t) ==> spec_format_datetime(datetime@) == Some(t@),
{
    moment_text(datetime.secs, "%d.%m %H:%M")
}

} // verus!
