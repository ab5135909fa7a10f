//! Calendar dates, times of day, UTC instants and time zones, with the
//! calls into `chrono` and `chrono-tz` that work on them.
use vstd::prelude::*;

use chrono::{Datelike, TimeZone, Timelike};

use crate::text::{
    append_str, decimal, digit_value, is_ascii_digit, push_char, trim_start, u64_to_string,
};

verus! {

/// The first and last years that `chrono::NaiveDate` holds.
pub const MIN_YEAR: i32 = -262143;

pub const MAX_YEAR: i32 = 262142;

/// The UTC instants, in seconds since the Unix epoch, two days inside the
/// range of `chrono::DateTime<Utc>`; every local date of such an instant, in
/// any zone, is a date that `chrono` holds.
pub const MIN_SECS: i64 = -8334601056000;

pub const MAX_SECS: i64 = 8210266703999;

/// A calendar date of the proleptic Gregorian calendar.
#[derive(Clone, Copy, Debug, PartialEq, Eq, Structural)]
pub struct Date {
    pub year: i32,
    pub month: u32,
    pub day: u32,
}

/// A time of day to the minute.
#[derive(Clone, Copy, Debug, PartialEq, Eq, Structural)]
pub struct TimeOfDay {
    pub hour: u32,
    pub minute: u32,
}

/// A day of the week.
#[derive(Clone, Copy, Debug, PartialEq, Eq, Structural)]
pub enum Weekday {
    Mon,
    Tue,
    Wed,
    Thu,
    Fri,
    Sat,
    Sun,
}

/// An instant: seconds since the Unix epoch and the nanoseconds past them.
#[derive(Clone, Copy, Debug, PartialEq, Eq, Structural)]
pub struct UtcTimestamp {
    pub secs: i64,
    pub nanos: u32,
}

/// How a local date and time of a zone maps to UTC.
#[derive(Clone, Copy, Debug, PartialEq, Eq, Structural)]
pub enum LocalMapping {
    /// The zone name is not one that `chrono-tz` knows.
    UnknownZone,
    /// The local time exists once.
    Single(UtcTimestamp),
    /// The local time exists twice; the earlier instant first.
    Ambiguous(UtcTimestamp, UtcTimestamp),
    /// The local time falls in a gap and does not exist.
    Gap,
}

// ---------------------------------------------------------------------------
// Dates
// ---------------------------------------------------------------------------

pub open spec fn is_leap_year(y: int) -> bool {
    y % 4 == 0 && (y % 100 != 0 || y % 400 == 0)
}

pub open spec fn days_in_month(y: int, m: int) -> int {
    if m == 2 {
        if is_leap_year(y) {
            29
        } else {
            28
        }
    } else if m == 4 || m == 6 || m == 9 || m == 11 {
        30
    } else {
        31
    }
}

/// A date that `chrono::NaiveDate::from_ymd_opt` accepts.
pub open spec fn valid_ymd(y: int, m: int, d: int) -> bool {
    &&& MIN_YEAR <= y <= MAX_YEAR
    &&& 1 <= m <= 12
    &&& 1 <= d <= days_in_month(y, m)
}

pub open spec fn valid_date(d: Date) -> bool {
    valid_ymd(d.year as int, d.month as int, d.day as int)
}

pub open spec fn valid_time(t: TimeOfDay) -> bool {
    t.hour < 24 && t.minute < 60
}

/// The calendar day after `d`, without a range check.
pub open spec fn following_day(d: Date) -> Date {
    if (d.day as int) < days_in_month(d.year as int, d.month as int) {
        Date { year: d.year, month: d.month, day: (d.day + 1) as u32 }
    } else if d.month < 12 {
        Date { year: d.year, month: (d.month + 1) as u32, day: 1 }
    } else {
        Date { year: (d.year + 1) as i32, month: 1, day: 1 }
    }
}

/// The date `n` days after `d`, when `chrono` holds it.
pub open spec fn days_after(d: Date, n: nat) -> Option<Date>
    decreases n,
{
    if n == 0 {
        Some(d)
    } else {
        match days_after(d, (n - 1) as nat) {
            Some(e) => if valid_date(following_day(e)) {
                Some(following_day(e))
            } else {
                None
            },
            None => None,
        }
    }
}

/// Days from Monday of the week day of a date (Sakamoto's formula, with
/// floor division).
#[verifier::opaque]
pub open spec fn weekday_index(d: Date) -> int {
    let m = d.month as int;
    let y = if m < 3 {
        d.year - 1
    } else {
        d.year as int
    };
    let t = if m == 1 {
        0int
    } else if m == 2 {
        3
    } else if m == 3 {
        2
    } else if m == 4 {
        5
    } else if m == 5 {
        0
    } else if m == 6 {
        3
    } else if m == 7 {
        5
    } else if m == 8 {
        1
    } else if m == 9 {
        4
    } else if m == 10 {
        6
    } else if m == 11 {
        2
    } else {
        4
    };
    ((y + y / 4 - y / 100 + y / 400 + t + d.day) % 7 + 6) % 7
}

impl Weekday {
    pub open spec fn index(self) -> int {
        match self {
            Weekday::Mon => 0,
            Weekday::Tue => 1,
            Weekday::Wed => 2,
            Weekday::Thu => 3,
            Weekday::Fri => 4,
            Weekday::Sat => 5,
            Weekday::Sun => 6,
        }
    }

    /// `Weekday::num_days_from_monday`.
    pub fn num_days_from_monday(&self) -> (r: u32)
        ensures
            r == self.index(),
    {
        match self {
            Weekday::Mon => 0,
            Weekday::Tue => 1,
            Weekday::Wed => 2,
            Weekday::Thu => 3,
            Weekday::Fri => 4,
            Weekday::Sat => 5,
            Weekday::Sun => 6,
        }
    }
}

/// The date one hour after `date` at `time`: the next hour of the same day,
/// or midnight's hour of the following day.
pub open spec fn hour_later(date: Date, time: TimeOfDay) -> Option<(Date, TimeOfDay)> {
    if time.hour < 23 {
        Some((date, TimeOfDay { hour: (time.hour + 1) as u32, minute: time.minute }))
    } else if valid_date(following_day(date)) {
        Some((following_day(date), TimeOfDay { hour: 0, minute: time.minute }))
    } else {
        None
    }
}

/// Leap years from year zero up to `y` (floor division keeps the count
/// right for years before zero too).
pub open spec fn leap_count(y: int) -> int {
    y / 4 - y / 100 + y / 400
}

/// Days from 1970-01-01 to the first of January of `y`.
pub open spec fn days_before_year(y: int) -> int {
    365 * (y - 1970) + leap_count(y - 1) - leap_count(1969)
}

/// Days of the year `y` before the first of month `m`.
pub open spec fn days_before_month(y: int, m: int) -> int {
    let base: int = if m == 1 {
        0
    } else if m == 2 {
        31
    } else if m == 3 {
        59
    } else if m == 4 {
        90
    } else if m == 5 {
        120
    } else if m == 6 {
        151
    } else if m == 7 {
        181
    } else if m == 8 {
        212
    } else if m == 9 {
        243
    } else if m == 10 {
        273
    } else if m == 11 {
        304
    } else {
        334
    };
    if m > 2 && is_leap_year(y) {
        base + 1
    } else {
        base
    }
}

/// Days from 1970-01-01 to a date of the proleptic Gregorian calendar;
/// negative before it.
pub open spec fn epoch_days(d: Date) -> int {
    days_before_year(d.year as int) + days_before_month(d.year as int, d.month as int) + d.day - 1
}

/// The seconds since the epoch of a date and time read as UTC.
pub open spec fn naive_seconds(d: Date, t: TimeOfDay) -> int {
    epoch_days(d) * 86400 + t.hour * 3600 + t.minute * 60
}

proof fn lemma_leap_count_step(y: int)
    ensures
        leap_count(y) - leap_count(y - 1) == (if is_leap_year(y) {
            1int
        } else {
            0int
        }),
{
    assert(y / 4 - (y - 1) / 4 == (if y % 4 == 0 { 1int } else { 0int })) by (nonlinear_arith);
    assert(y / 100 - (y - 1) / 100 == (if y % 100 == 0 { 1int } else { 0int })) by (nonlinear_arith);
    assert(y / 400 - (y - 1) / 400 == (if y % 400 == 0 { 1int } else { 0int })) by (nonlinear_arith);
    assert(y % 400 == 0 ==> y % 100 == 0 && y % 4 == 0) by (nonlinear_arith);
    assert(y % 100 == 0 ==> y % 4 == 0) by (nonlinear_arith);
}

/// The day after a valid date is one day later.
pub proof fn lemma_following_day_epoch(d: Date)
    requires
        valid_date(d),
    ensures
        epoch_days(following_day(d)) == epoch_days(d) + 1,
{
    if (d.day as int) < days_in_month(d.year as int, d.month as int) {
    } else if d.month < 12 {
    } else {
        lemma_leap_count_step(d.year as int);
    }
}

/// `n` days after a date is `n` days later.
pub proof fn lemma_days_after_epoch(d: Date, n: nat)
    requires
        valid_date(d),
        days_after(d, n) is Some,
    ensures
        epoch_days(days_after(d, n)->0) == epoch_days(d) + n,
        valid_date(days_after(d, n)->0),
    decreases n,
{
    if n > 0 {
        lemma_days_after_epoch(d, (n - 1) as nat);
        let e = days_after(d, (n - 1) as nat)->0;
        lemma_following_day_epoch(e);
    }
}

proof fn lemma_div4_step(y: int)
    ensures
        y / 4 - (y - 1) / 4 == (if y % 4 == 0 {
            1int
        } else {
            0int
        }),
        (y - 1) % 4 == (if y % 4 == 0 {
            3int
        } else {
            y % 4 - 1
        }),
{
}

proof fn lemma_div100_step(y: int)
    ensures
        y / 100 - (y - 1) / 100 == (if y % 100 == 0 {
            1int
        } else {
            0int
        }),
{
}

proof fn lemma_div400_step(y: int)
    ensures
        y / 400 - (y - 1) / 400 == (if y % 400 == 0 {
            1int
        } else {
            0int
        }),
{
}

proof fn lemma_year_count_step(y: int)
    ensures
        (y + y / 4 - y / 100 + y / 400) - ((y - 1) + (y - 1) / 4 - (y - 1) / 100 + (y - 1) / 400)
            == 1 + (if is_leap_year(y) {
            1int
        } else {
            0int
        }),
{
    lemma_div4_step(y);
    lemma_div100_step(y);
    lemma_div400_step(y);
    assert(y % 400 == 0 ==> y % 100 == 0) by {
        if y % 400 == 0 {
            assert(y == 400 * (y / 400));
            assert(y == 100 * (4 * (y / 400)));
        }
    }
    assert(y % 100 == 0 ==> y % 4 == 0) by {
        if y % 100 == 0 {
            assert(y == 100 * (y / 100));
            assert(y == 4 * (25 * (y / 100)));
        }
    }
}

/// The day after a date falls on the next week day.
pub proof fn lemma_weekday_following(d: Date)
    requires
        valid_date(d),
        valid_date(following_day(d)),
    ensures
        weekday_index(following_day(d)) == (weekday_index(d) + 1) % 7,
{
    reveal(weekday_index);
    let e = following_day(d);
    if d.month == 2 && (d.day as int) == days_in_month(d.year as int, 2) {
        lemma_year_count_step(d.year as int);
    }
}

pub proof fn lemma_weekday_range(d: Date)
    ensures
        0 <= weekday_index(d) < 7,
{
    reveal(weekday_index);
}

proof fn lemma_mod7_succ(x: int)
    ensures
        (x % 7 + 1) % 7 == (x + 1) % 7,
{
}

/// `n` days after a date falls `n` week days later.
pub proof fn lemma_weekday_after(d: Date, n: nat)
    requires
        valid_date(d),
        days_after(d, n) is Some,
    ensures
        weekday_index(days_after(d, n)->0) == (weekday_index(d) + n) % 7,
    decreases n,
{
    lemma_weekday_range(d);
    if n > 0 {
        let m = (n - 1) as nat;
        assert(days_after(d, m) is Some);
        lemma_weekday_after(d, m);
        let e = days_after(d, m)->0;
        lemma_days_after_epoch(d, m);
        assert(days_after(d, n) == Some(following_day(e)));
        lemma_weekday_following(e);
        lemma_mod7_succ(weekday_index(d) + m);
    }
}

/// Going `a` days and then `b` more is going `a + b` days.
pub proof fn lemma_days_after_add(d: Date, a: nat, b: nat)
    requires
        days_after(d, a) is Some,
    ensures
        days_after(d, a + b) == days_after(days_after(d, a)->0, b),
    decreases b,
{
    if b > 0 {
        lemma_days_after_add(d, a, (b - 1) as nat);
        assert((a + b - 1) as nat == a + (b - 1) as nat);
    }
}

/// An hour later is 3600 seconds later.
pub proof fn lemma_hour_later_seconds(d: Date, t: TimeOfDay)
    requires
        valid_date(d),
        valid_time(t),
        hour_later(d, t) is Some,
    ensures
        ({
            let (d2, t2) = hour_later(d, t)->0;
            naive_seconds(d2, t2) == naive_seconds(d, t) + 3600
        }),
{
    if t.hour >= 23 {
        lemma_following_day_epoch(d);
    }
}

/// `NaiveDate::from_ymd_opt`: the date when it exists and `chrono` holds it.
#[verifier::external_body]
pub(crate) fn date_from_ymd(year: i32, month: u32, day: u32) -> (r: Option<Date>)
    ensures
        r == (if valid_ymd(year as int, month as int, day as int) {
            Some(Date { year, month, day })
        } else {
            None
        }),
{
    match chrono::NaiveDate::from_ymd_opt(year, month, day) {
        Some(d) => Some(Date { year: d.year(), month: d.month(), day: d.day() }),
        None => None,
    }
}

/// `NaiveDate::checked_add_days`: the date `days` days later, when `chrono`
/// holds it.
#[verifier::external_body]
pub(crate) fn add_days(date: Date, days: u64) -> (r: Option<Date>)
    requires
        valid_date(date),
    ensures
        r == days_after(date, days as nat),
{
    let d = chrono::NaiveDate::from_ymd_opt(date.year, date.month, date.day).unwrap();
    match d.checked_add_days(chrono::Days::new(days)) {
        Some(e) => Some(Date { year: e.year(), month: e.month(), day: e.day() }),
        None => None,
    }
}

/// `NaiveDate::weekday`.
#[verifier::external_body]
pub(crate) fn weekday_of(date: Date) -> (r: Weekday)
    requires
        valid_date(date),
    ensures
        r.index() == weekday_index(date),
{
    match chrono::NaiveDate::from_ymd_opt(date.year, date.month, date.day).unwrap().weekday() {
        chrono::Weekday::Mon => Weekday::Mon,
        chrono::Weekday::Tue => Weekday::Tue,
        chrono::Weekday::Wed => Weekday::Wed,
        chrono::Weekday::Thu => Weekday::Thu,
        chrono::Weekday::Fri => Weekday::Fri,
        chrono::Weekday::Sat => Weekday::Sat,
        chrono::Weekday::Sun => Weekday::Sun,
    }
}

/// `NaiveDateTime::checked_add_signed` with one hour, at second zero.
#[verifier::external_body]
pub(crate) fn one_hour_later(date: Date, time: TimeOfDay) -> (r: Option<(Date, TimeOfDay)>)
    requires
        valid_date(date),
        valid_time(time),
    ensures
        r == hour_later(date, time),
{
    let d = chrono::NaiveDate::from_ymd_opt(date.year, date.month, date.day).unwrap();
    let dt = d.and_hms_opt(time.hour, time.minute, 0).unwrap();
    match dt.checked_add_signed(chrono::TimeDelta::hours(1)) {
        Some(e) => Some((Date { year: e.year(), month: e.month(), day: e.day() }, TimeOfDay { hour: e.hour(), minute: e.minute() })),
        None => None,
    }
}

/// `n` in decimal, with zeros in front up to `width` digits.
pub open spec fn zero_padded(n: nat, width: nat) -> Seq<char> {
    let d = decimal(n);
    if d.len() >= width {
        d
    } else {
        Seq::new((width - d.len()) as nat, |_i: int| '0') + d
    }
}

/// A year with four digits; a year outside `0..=9999` gets its sign and at
/// least four digits, as `chrono` writes years.
pub open spec fn year_text(y: int) -> Seq<char> {
    if 0 <= y <= 9999 {
        zero_padded(y as nat, 4)
    } else if y < 0 {
        seq!['-'] + zero_padded((-y) as nat, 4)
    } else {
        seq!['+'] + zero_padded(y as nat, 4)
    }
}

/// A date as `YYYY-MM-DD`, as `NaiveDate`'s `Display` writes it.
pub open spec fn iso_date_text(d: Date) -> Seq<char> {
    year_text(d.year as int) + seq!['-'] + zero_padded(d.month as nat, 2) + seq!['-']
        + zero_padded(d.day as nat, 2)
}

/// The English name of a month, as `%B` writes it.
pub open spec fn month_name(m: int) -> Seq<char> {
    if m == 1 {
        "January"@
    } else if m == 2 {
        "February"@
    } else if m == 3 {
        "March"@
    } else if m == 4 {
        "April"@
    } else if m == 5 {
        "May"@
    } else if m == 6 {
        "June"@
    } else if m == 7 {
        "July"@
    } else if m == 8 {
        "August"@
    } else if m == 9 {
        "September"@
    } else if m == 10 {
        "October"@
    } else if m == 11 {
        "November"@
    } else {
        "December"@
    }
}

/// The English name of a week day counted from Monday, as `%A` writes it.
pub open spec fn weekday_name(i: int) -> Seq<char> {
    if i == 0 {
        "Monday"@
    } else if i == 1 {
        "Tuesday"@
    } else if i == 2 {
        "Wednesday"@
    } else if i == 3 {
        "Thursday"@
    } else if i == 4 {
        "Friday"@
    } else if i == 5 {
        "Saturday"@
    } else {
        "Sunday"@
    }
}

/// The UTC calendar date of an instant given in seconds since the epoch.
pub open spec fn utc_date_of(secs: int) -> Date {
    choose|d: Date| valid_date(d) && epoch_days(d) == secs / 86400
}

/// The UTC hour and minute of an instant given in seconds since the epoch.
pub open spec fn utc_hour(secs: int) -> int {
    (secs % 86400) / 3600
}

pub open spec fn utc_minute(secs: int) -> int {
    (secs % 3600) / 60
}

/// The UTC time of an instant as `%H:%M` writes it.
pub open spec fn utc_hour_minute_text(secs: int) -> Seq<char> {
    zero_padded(utc_hour(secs) as nat, 2) + seq![':'] + zero_padded(utc_minute(secs) as nat, 2)
}

/// Appends `n` in decimal with zeros in front up to `width` digits.
pub(crate) fn push_zero_padded(s: &mut String, n: u64, width: usize)
    ensures
        final(s)@ == old(s)@ + zero_padded(n as nat, width as nat),
{
    let ghost s0 = s@;
    let digits = u64_to_string(n);
    let len = digits.as_str().unicode_len();
    let mut k = len;
    while k < width
        invariant
            len == decimal(n as nat).len(),
            len <= k <= width || (k == len && len >= width),
            s@ == s0 + Seq::new((k - len) as nat, |_i: int| '0'),
        decreases width - k,
    {
        push_char(s, '0');
        assert(s0 + Seq::new((k + 1 - len) as nat, |_i: int| '0') =~= (s0 + Seq::new(
            (k - len) as nat,
            |_i: int| '0',
        )).push('0'));
        k += 1;
    }
    append_str(s, digits.as_str());
    assert(s@ =~= s0 + zero_padded(n as nat, width as nat));
}

impl Date {
    /// The date as `NaiveDate`'s `Display` writes it.
    pub fn to_iso_string(&self) -> (r: String)
        ensures
            r@ == iso_date_text(*self),
    {
        let mut r = String::new();
        let y = self.year;
        if 0 <= y && y <= 9999 {
            push_zero_padded(&mut r, y as u64, 4);
        } else if y < 0 {
            push_char(&mut r, '-');
            push_zero_padded(&mut r, (-(y as i64)) as u64, 4);
        } else {
            push_char(&mut r, '+');
            push_zero_padded(&mut r, y as u64, 4);
        }
        push_char(&mut r, '-');
        push_zero_padded(&mut r, self.month as u64, 2);
        push_char(&mut r, '-');
        push_zero_padded(&mut r, self.day as u64, 2);
        r
    }
}

// ---------------------------------------------------------------------------
// Instants
// ---------------------------------------------------------------------------

/// Within the range where every local date is one `chrono` holds.
pub open spec fn in_calendar_range(t: UtcTimestamp) -> bool {
    MIN_SECS <= t.secs <= MAX_SECS && t.nanos < 1_000_000_000
}

/// `a` is not later than `b`, as `DateTime<Utc>` orders them.
pub open spec fn not_later(a: UtcTimestamp, b: UtcTimestamp) -> bool {
    a.secs < b.secs || (a.secs == b.secs && a.nanos <= b.nanos)
}

impl UtcTimestamp {
    /// `self <= other` on `DateTime<Utc>`.
    pub fn is_not_later_than(&self, other: &UtcTimestamp) -> (r: bool)
        ensures
            r == not_later(*self, *other),
    {
        self.secs < other.secs || (self.secs == other.secs && self.nanos <= other.nanos)
    }

    /// Whether the instant lies where the calendar functions can work on it.
    pub fn is_in_calendar_range(&self) -> (r: bool)
        ensures
            r == in_calendar_range(*self),
    {
        MIN_SECS <= self.secs && self.secs <= MAX_SECS && self.nanos < 1_000_000_000
    }

    /// `DateTime::timestamp`: whole seconds since the epoch.
    pub fn timestamp(&self) -> (r: i64)
        ensures
            r == self.secs,
    {
        self.secs
    }
}

/// What `chrono-tz` maps a local date and time of a zone to: the zone is
/// looked up by name with `Tz::from_str`, then `TimeZone::from_local_datetime`
/// is asked at second zero.
pub uninterp spec fn zone_mapping(
    zone: Seq<char>,
    year: int,
    month: int,
    day: int,
    hour: int,
    minute: int,
) -> LocalMapping;

/// The local calendar date of an instant in a zone looked up by name, as
/// `DateTime::with_timezone` and `date_naive` give it; `None` when the zone
/// is unknown.
pub uninterp spec fn zone_local_date(zone: Seq<char>, secs: int, nanos: int) -> Option<Date>;

/// Whether `Tz::from_str` knows a zone name: whether it is one of the names
/// of `chrono-tz`'s table, written exactly.
pub uninterp spec fn known_zone(zone: Seq<char>) -> bool;

/// `Tz::from_str`, asked only whether it succeeds.
#[verifier::external_body]
pub(crate) fn zone_is_known(zone: &str) -> (r: bool)
    ensures
        r == known_zone(zone@),
{
    zone.parse::<chrono_tz::Tz>().is_ok()
}

/// `Tz::from_str` and `TimeZone::from_local_datetime`. An instant found is
/// the local time less the zone's offset at it, and `chrono` keeps every
/// offset strictly within a day (`FixedOffset::east_opt`).
#[verifier::external_body]
pub(crate) fn local_mapping(zone: &str, date: Date, time: TimeOfDay) -> (r: LocalMapping)
    requires
        valid_date(date),
        valid_time(time),
    ensures
        r == zone_mapping(
            zone@,
            date.year as int,
            date.month as int,
            date.day as int,
            time.hour as int,
            time.minute as int,
        ),
        (r is UnknownZone) == !known_zone(zone@),
        r matches LocalMapping::Single(u) ==> naive_seconds(date, time) - 86400 < u.secs
            < naive_seconds(date, time) + 86400,
        r matches LocalMapping::Ambiguous(a, b) ==> naive_seconds(date, time) - 86400 < a.secs
            < naive_seconds(date, time) + 86400 && naive_seconds(date, time) - 86400 < b.secs
            < naive_seconds(date, time) + 86400,
{
    let tz = match zone.parse::<chrono_tz::Tz>() { Ok(tz) => tz, Err(_) => return LocalMapping::UnknownZone };
    let d = chrono::NaiveDate::from_ymd_opt(date.year, date.month, date.day).unwrap();
    match tz.from_local_datetime(&d.and_hms_opt(time.hour, time.minute, 0).unwrap()) {
        chrono::LocalResult::Single(t) => LocalMapping::Single(UtcTimestamp { secs: t.timestamp(), nanos: t.timestamp_subsec_nanos() }),
        chrono::LocalResult::Ambiguous(a, b) => LocalMapping::Ambiguous(UtcTimestamp { secs: a.timestamp(), nanos: a.timestamp_subsec_nanos() }, UtcTimestamp { secs: b.timestamp(), nanos: b.timestamp_subsec_nanos() }),
        chrono::LocalResult::None => LocalMapping::Gap,
    }
}

/// `Tz::from_str`, `DateTime::with_timezone` and `DateTime::date_naive`. The
/// date is one that `chrono` holds, since the instant is two days inside its
/// range and no zone is a day away from UTC; the local time is the instant
/// plus an offset strictly within a day, so the instant lies less than a day
/// before the date's midnight or less than two days after it.
#[verifier::external_body]
pub(crate) fn local_date(zone: &str, at: UtcTimestamp) -> (r: Option<Date>)
    requires
        in_calendar_range(at),
    ensures
        r == zone_local_date(zone@, at.secs as int, at.nanos as int),
        r matches Some(d) ==> valid_date(d),
        (r is None) == !known_zone(zone@),
        r matches Some(d) ==> epoch_days(d) * 86400 - 86400 < at.secs < epoch_days(d) * 86400
            + 2 * 86400,
{
    let tz = match zone.parse::<chrono_tz::Tz>() { Ok(tz) => tz, Err(_) => return None };
    let d = chrono::DateTime::from_timestamp(at.secs, at.nanos).unwrap().with_timezone(&tz).date_naive();
    Some(Date { year: d.year(), month: d.month(), day: d.day() })
}

/// The local time of day, to the minute, of an instant in a zone looked up
/// by name, as `DateTime::with_timezone` and `DateTime::time` give it;
/// `None` when the zone is unknown.
pub uninterp spec fn zone_local_time(zone: Seq<char>, secs: int, nanos: int) -> Option<TimeOfDay>;

/// `Tz::from_str`, `DateTime::with_timezone` and `DateTime::time`, as hour
/// and minute; `NaiveTime::hour` and `minute` stay below 24 and 60.
#[verifier::external_body]
pub(crate) fn local_time(zone: &str, at: UtcTimestamp) -> (r: Option<TimeOfDay>)
    requires
        in_calendar_range(at),
    ensures
        r == zone_local_time(zone@, at.secs as int, at.nanos as int),
        r matches Some(t) ==> valid_time(t),
        (r is None) == !known_zone(zone@),
{
    let tz = match zone.parse::<chrono_tz::Tz>() { Ok(tz) => tz, Err(_) => return None };
    let t = chrono::DateTime::from_timestamp(at.secs, at.nanos).unwrap().with_timezone(&tz).time();
    Some(TimeOfDay { hour: t.hour(), minute: t.minute() })
}

/// A numeric field as `chrono`'s parser reads one of width two: white space
/// skipped, then one ASCII digit, or two when a second follows; its value and
/// the rest of the text.
pub open spec fn two_digit_field(s: Seq<char>) -> Option<(nat, Seq<char>)> {
    let t = trim_start(s);
    if t.len() >= 1 && is_ascii_digit(t[0]) {
        if t.len() >= 2 && is_ascii_digit(t[1]) {
            Some((digit_value(t[0]) * 10 + digit_value(t[1]), t.skip(2)))
        } else {
            Some((digit_value(t[0]), t.skip(1)))
        }
    } else {
        None
    }
}

/// What `NaiveTime::parse_from_str` with the format `%H:%M` reads: an hour
/// field up to 23, then `:`, then a minute field up to 59, and nothing after.
pub open spec fn hour_minute_parse(s: Seq<char>) -> Option<TimeOfDay> {
    match two_digit_field(s) {
        Some((h, rest)) => if h <= 23 && rest.len() >= 1 && rest[0] == ':' {
            match two_digit_field(rest.skip(1)) {
                Some((m, end)) => if m <= 59 && end.len() == 0 {
                    Some(TimeOfDay { hour: h as u32, minute: m as u32 })
                } else {
                    None
                },
                None => None,
            }
        } else {
            None
        },
        None => None,
    }
}

/// `NaiveTime::parse_from_str(s, "%H:%M")`. `chrono` reads `%H` and `%M` as
/// numeric fields of width two, each after skipping white space
/// (`format::parse`, `scan::number`), checks the hour against 0..=23 and the
/// minute against 0..=59 (`Parsed::set_hour`, `set_minute`), matches `:`
/// literally, and refuses text left over.
#[verifier::external_body]
pub(crate) fn parse_hour_minute(s: &str) -> (r: Option<TimeOfDay>)
    ensures
        r == hour_minute_parse(s@),
        r matches Some(t) ==> valid_time(t),
{
    match chrono::NaiveTime::parse_from_str(s, "%H:%M") {
        Ok(t) => Some(TimeOfDay { hour: t.hour(), minute: t.minute() }),
        Err(_) => None,
    }
}

/// `Utc::now`; nothing is promised of the clock but that the nanoseconds
/// past the second are a valid count.
#[verifier::external_body]
pub(crate) fn now() -> (r: UtcTimestamp)
    ensures
        r.nanos < 2_000_000_000,
{
    let t = chrono::Utc::now();
    UtcTimestamp { secs: t.timestamp(), nanos: t.timestamp_subsec_nanos() }
}

} // verus!
