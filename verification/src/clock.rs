//! Wall-clock readings and their textual forms.
//!
//! The clock itself is read through chrono and chrono-tz; what the page shows
//! of a reading is computed and proved here.

use vstd::prelude::*;
use vstd::string::*;
use chrono::{Datelike, NaiveDateTime, TimeZone, Timelike, Utc};
use chrono_tz::Tz;

verus! {

#[verifier::external_type_specification]
#[verifier::external_body]
pub struct ExNaiveDateTime(NaiveDateTime);

/// A calendar date and time of day, as plain numbers.
#[derive(Debug, Clone, Copy, PartialEq, Eq)]
pub struct WallClock {
    pub year: i32,
    /// 1 ..= 12
    pub month: u32,
    /// 1 ..= 31
    pub day: u32,
    /// 0 ..= 23
    pub hour: u32,
    /// 0 ..= 59
    pub minute: u32,
    /// 0 ..= 59
    pub second: u32,
    /// Nanoseconds past the second; at or above one billion during a leap second.
    pub nanosecond: u32,
    /// Days since the last Sunday, 0 ..= 6.
    pub weekday_from_sunday: u32,
}

/// An instant on the UTC time line: whole seconds since the Unix epoch and
/// the nanoseconds past that second.
#[derive(Debug, Clone, Copy, PartialEq, Eq)]
pub struct Timestamp {
    pub secs: i64,
    pub nanos: u32,
}

impl WallClock {
    /// The ranges that chrono documents for each field.
    pub open spec fn valid(self) -> bool {
        &&& 1 <= self.month <= 12
        &&& 1 <= self.day <= 31
        &&& self.hour < 24
        &&& self.minute < 60
        &&& self.second < 60
        &&& self.nanosecond < 2_000_000_000
        &&& self.weekday_from_sunday < 7
    }

    /// The weekday is the one of the calendar date.
    pub open spec fn weekday_matches(self) -> bool {
        self.weekday_from_sunday == weekday_of_date(self.year as int, self.month as int, self.day as int)
    }

    /// The second shown for this reading: a leap second shows as 60.
    pub open spec fn shown_second(self) -> int {
        self.second + self.nanosecond / 1_000_000_000
    }
}

/// Days from 1970-01-01 to the given date of the proleptic Gregorian
/// calendar (negative before it).
pub open spec fn days_from_civil(y: int, m: int, d: int) -> int {
    let yy = if m <= 2 { y - 1 } else { y };
    let era = yy / 400;
    let yoe = yy - era * 400;
    let mp = if m > 2 { m - 3 } else { m + 9 };
    let doy = (153 * mp + 2) / 5 + d - 1;
    let doe = yoe * 365 + yoe / 4 - yoe / 100 + doy;
    era * 146097 + doe - 719468
}

/// The weekday of a date, counted from Sunday (1970-01-01 was a Thursday).
pub open spec fn weekday_of_date(y: int, m: int, d: int) -> int {
    (days_from_civil(y, m, d) + 4) % 7
}

/// Whether chrono-tz knows a time zone of this name.
pub uninterp spec fn names_time_zone(name: Seq<char>) -> bool;

/// The wall clock in the zone called `zone` at the instant `secs` seconds and
/// `nanos` nanoseconds after the Unix epoch, by chrono-tz's rules for that
/// zone.
pub uninterp spec fn zone_clock_at(zone: Seq<char>, secs: i64, nanos: u32) -> WallClock;

/// The present UTC date and time, from `chrono::Utc::now` (as its naive
/// form, `DateTime::naive_utc`). It depends on the clock, so nothing is
/// stated of it.
#[verifier::external_body]
pub(crate) fn utc_now_naive() -> NaiveDateTime {
    Utc::now().naive_utc()
}

/// The present local date and time, from `chrono::Local::now` and
/// `DateTime::naive_local`. It depends on the clock and the machine's time
/// zone, so nothing is stated of it.
#[verifier::external_body]
pub(crate) fn local_now() -> NaiveDateTime {
    chrono::Local::now().naive_local()
}

/// A UTC date and time as seconds and nanoseconds since the Unix epoch
/// (chrono's `NaiveDateTime::and_utc`, `DateTime::timestamp` and
/// `DateTime::timestamp_subsec_nanos`). Claimed: the nanoseconds are below two
/// billion, as chrono documents (a leap second goes past one billion). The
/// count itself is not stated.
#[verifier::external_body]
pub(crate) fn timestamp_of(utc: &NaiveDateTime) -> (r: Timestamp)
    ensures
        r.nanos < 2_000_000_000,
{
    let dt = utc.and_utc();
    Timestamp { secs: dt.timestamp(), nanos: dt.timestamp_subsec_nanos() }
}

/// The present instant by the system clock.
pub fn utc_now() -> (r: Timestamp)
    ensures
        r.nanos < 2_000_000_000,
{
    let now = utc_now_naive();
    timestamp_of(&now)
}

/// The fields of a chrono `NaiveDateTime` (chrono's `Datelike` and
/// `Timelike` accessors). Claimed: each field lies in the range that chrono
/// documents for its accessor, and the weekday is that of the date in the
/// proleptic Gregorian calendar chrono uses.
#[verifier::external_body]
pub(crate) fn wall_clock_of(dt: &NaiveDateTime) -> (r: WallClock)
    ensures
        r.valid(),
        r.weekday_matches(),
{
    WallClock {
        year: dt.year(),
        month: dt.month(),
        day: dt.day(),
        hour: dt.hour(),
        minute: dt.minute(),
        second: dt.second(),
        nanosecond: dt.nanosecond(),
        weekday_from_sunday: dt.weekday().num_days_from_sunday(),
    }
}

/// Reads the clock in the zone called `name`: chrono-tz's `FromStr` for
/// `Tz` (a lookup of the name in the compiled table), then `Utc::now` and
/// `TimeZone::from_utc_datetime` with `naive_local`, giving the instant read
/// (`timestamp`, `timestamp_subsec_nanos`) and the zone's wall clock at it
/// (the `Datelike` and `Timelike` accessors).
///
/// Claimed: there is a reading exactly when the table holds the name; the
/// instant's nanoseconds and the clock's fields lie in the ranges chrono
/// documents, its weekday being that of its date; and the wall clock is the
/// zone's wall clock at that instant, which depends on the name and the
/// instant alone. The instant itself, a
/// reading of the system clock, is not stated.
#[verifier::external_body]
pub(crate) fn zone_now(name: &str) -> (r: Option<(Timestamp, WallClock)>)
    ensures
        r.is_some() == names_time_zone(name@),
        r matches Some((t, c)) ==> t.nanos < 2_000_000_000 && c.valid() && c.weekday_matches()
            && c == zone_clock_at(name@, t.secs, t.nanos),
{
    let tz = name.parse::<Tz>().ok()?;
    let now = Utc::now();
    let d = tz.from_utc_datetime(&now.naive_utc()).naive_local();
    let at = Timestamp { secs: now.timestamp(), nanos: now.timestamp_subsec_nanos() };
    Some((at, WallClock {
        year: d.year(), month: d.month(), day: d.day(), hour: d.hour(), minute: d.minute(), second: d.second(),
        nanosecond: d.nanosecond(), weekday_from_sunday: d.weekday().num_days_from_sunday(),
    }))
}

/// The present local wall clock.
pub fn local_wall_clock() -> (r: WallClock)
    ensures
        r.valid(),
        r.weekday_matches(),
{
    let now = local_now();
    wall_clock_of(&now)
}

/// The character of a decimal digit.
pub open spec fn digit_char(d: int) -> char {
    if d == 0 { '0' }
    else if d == 1 { '1' }
    else if d == 2 { '2' }
    else if d == 3 { '3' }
    else if d == 4 { '4' }
    else if d == 5 { '5' }
    else if d == 6 { '6' }
    else if d == 7 { '7' }
    else if d == 8 { '8' }
    else { '9' }
}

/// The decimal digits of `n`, without leading zeros.
pub open spec fn decimal(n: nat) -> Seq<char>
    decreases n,
{
    if n < 10 {
        seq![digit_char(n as int)]
    } else {
        decimal(n / 10).push(digit_char((n % 10) as int))
    }
}

/// `n` in two digits, with a leading zero below ten.
pub open spec fn two_digits(n: int) -> Seq<char> {
    seq![digit_char(n / 10), digit_char(n % 10)]
}

/// `n` in four digits, zero-padded.
pub open spec fn four_digits(n: int) -> Seq<char> {
    seq![digit_char(n / 1000), digit_char((n / 100) % 10), digit_char((n / 10) % 10), digit_char(n % 10)]
}

/// A year as chrono's `%Y` writes it: four zero-padded digits within
/// 0 ..= 9999, otherwise with a sign and at least four digits.
pub open spec fn year_text(y: int) -> Seq<char> {
    if 0 <= y <= 9999 {
        four_digits(y)
    } else if -9999 <= y < 0 {
        seq!['-'] + four_digits(-y)
    } else if y < 0 {
        seq!['-'] + decimal((-y) as nat)
    } else {
        seq!['+'] + decimal(y as nat)
    }
}

/// The English name of the weekday, counted from Sunday.
pub open spec fn weekday_name(d: int) -> Seq<char> {
    if d == 0 { "Sunday"@ }
    else if d == 1 { "Monday"@ }
    else if d == 2 { "Tuesday"@ }
    else if d == 3 { "Wednesday"@ }
    else if d == 4 { "Thursday"@ }
    else if d == 5 { "Friday"@ }
    else { "Saturday"@ }
}

/// `%H:%M:%S`
pub open spec fn clock_time_text(c: WallClock) -> Seq<char> {
    two_digits(c.hour as int) + seq![':'] + two_digits(c.minute as int) + seq![':']
        + two_digits(c.shown_second())
}

/// `%m月%d日`
pub open spec fn month_day_text(c: WallClock) -> Seq<char> {
    two_digits(c.month as int) + "月"@ + two_digits(c.day as int) + "日"@
}

/// `%H:%M`
pub open spec fn hour_minute_text(c: WallClock) -> Seq<char> {
    two_digits(c.hour as int) + seq![':'] + two_digits(c.minute as int)
}

/// `%Y年%m月%d日 %A`
pub open spec fn long_date_text(c: WallClock) -> Seq<char> {
    year_text(c.year as int) + "年"@ + two_digits(c.month as int) + "月"@ + two_digits(c.day as int)
        + "日 "@ + weekday_name(c.weekday_from_sunday as int)
}

fn digit_text(d: u64) -> (r: &'static str)
    requires
        d < 10,
    ensures
        r@ == seq![digit_char(d as int)],
{
    if d == 0 {
        proof { reveal_strlit("0"); }
        "0"
    } else if d == 1 {
        proof { reveal_strlit("1"); }
        "1"
    } else if d == 2 {
        proof { reveal_strlit("2"); }
        "2"
    } else if d == 3 {
        proof { reveal_strlit("3"); }
        "3"
    } else if d == 4 {
        proof { reveal_strlit("4"); }
        "4"
    } else if d == 5 {
        proof { reveal_strlit("5"); }
        "5"
    } else if d == 6 {
        proof { reveal_strlit("6"); }
        "6"
    } else if d == 7 {
        proof { reveal_strlit("7"); }
        "7"
    } else if d == 8 {
        proof { reveal_strlit("8"); }
        "8"
    } else {
        proof { reveal_strlit("9"); }
        "9"
    }
}

fn push_decimal(out: &mut String, n: u64)
    ensures
        final(out)@ == old(out)@ + decimal(n as nat),
    decreases n,
{
    if n >= 10 {
        push_decimal(out, n / 10);
    }
    out.append(digit_text(n % 10));
}

fn push_two_digits(out: &mut String, n: u32)
    requires
        n < 100,
    ensures
        final(out)@ == old(out)@ + two_digits(n as int),
{
    out.append(digit_text((n / 10) as u64));
    out.append(digit_text((n % 10) as u64));
}

fn push_four_digits(out: &mut String, n: u32)
    requires
        n < 10000,
    ensures
        final(out)@ == old(out)@ + four_digits(n as int),
{
    out.append(digit_text((n / 1000) as u64));
    out.append(digit_text(((n / 100) % 10) as u64));
    out.append(digit_text(((n / 10) % 10) as u64));
    out.append(digit_text((n % 10) as u64));
}

fn push_year(out: &mut String, y: i32)
    ensures
        final(out)@ == old(out)@ + year_text(y as int),
{
    if 0 <= y && y <= 9999 {
        push_four_digits(out, y as u32);
    } else if y < 0 {
        proof { reveal_strlit("-"); }
        out.append("-");
        let a: u64 = (0i64 - (y as i64)) as u64;
        if a <= 9999 {
            push_four_digits(out, a as u32);
        } else {
            push_decimal(out, a);
        }
    } else {
        proof { reveal_strlit("+"); }
        out.append("+");
        push_decimal(out, y as u64);
    }
}

fn weekday_text(d: u32) -> (r: &'static str)
    requires
        d < 7,
    ensures
        r@ == weekday_name(d as int),
{
    if d == 0 {
        "Sunday"
    } else if d == 1 {
        "Monday"
    } else if d == 2 {
        "Tuesday"
    } else if d == 3 {
        "Wednesday"
    } else if d == 4 {
        "Thursday"
    } else if d == 5 {
        "Friday"
    } else {
        "Saturday"
    }
}

/// The time of day as `HH:MM:SS`.
pub fn format_clock_time(c: &WallClock) -> (r: String)
    requires
        c.valid(),
    ensures
        r@ == clock_time_text(*c),
{
    let mut out = String::new();
    push_two_digits(&mut out, c.hour);
    proof { reveal_strlit(":"); }
    out.append(":");
    push_two_digits(&mut out, c.minute);
    out.append(":");
    let shown = c.second + c.nanosecond / 1_000_000_000;
    push_two_digits(&mut out, shown);
    out
}

/// The month and day as `MM月DD日`.
pub fn format_month_day(c: &WallClock) -> (r: String)
    requires
        c.valid(),
    ensures
        r@ == month_day_text(*c),
{
    let mut out = String::new();
    push_two_digits(&mut out, c.month);
    out.append("月");
    push_two_digits(&mut out, c.day);
    out.append("日");
    out
}

/// The time of day as `HH:MM`.
pub fn format_hour_minute(c: &WallClock) -> (r: String)
    requires
        c.valid(),
    ensures
        r@ == hour_minute_text(*c),
{
    let mut out = String::new();
    push_two_digits(&mut out, c.hour);
    proof { reveal_strlit(":"); }
    out.append(":");
    push_two_digits(&mut out, c.minute);
    out
}

/// The date as `YYYY年MM月DD日 Weekday`.
pub fn format_long_date(c: &WallClock) -> (r: String)
    requires
        c.valid(),
    ensures
        r@ == long_date_text(*c),
{
    let mut out = String::new();
    push_year(&mut out, c.year);
    out.append("年");
    push_two_digits(&mut out, c.month);
    out.append("月");
    push_two_digits(&mut out, c.day);
    out.append("日 ");
    out.append(weekday_text(c.weekday_from_sunday));
    out
}

} // verus!
