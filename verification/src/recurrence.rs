//! Recurring schedules (`daily 19:00`, `weekly fri 20:00`, `friday 20:00`,
//! `monthly 15 19:30`) and the next instant at which one falls.
use vstd::prelude::*;

use crate::calendar::{
    add_days, date_from_ymd, days_after, days_in_month, epoch_days, following_day, hour_later,
    hour_minute_parse, in_calendar_range, known_zone, lemma_days_after_epoch,
    lemma_hour_later_seconds, local_date, local_mapping, naive_seconds, not_later, one_hour_later,
    parse_hour_minute, weekday_name, lemma_days_after_add, lemma_weekday_after, valid_date, valid_time, valid_ymd, weekday_index, weekday_of,
    zone_local_date, zone_mapping, Date, LocalMapping, TimeOfDay, UtcTimestamp, Weekday,
    MAX_YEAR, MIN_YEAR,
};
use crate::text::{
    all_ascii, ascii_lower, ascii_lowered, ascii_upper, ascii_uppered, chars_eq_str, chars_of,
    commas_as_spaces, commas_to_spaces, is_whitespace, lowercase, parse_u64, parse_unsigned,
    split_whitespace, string_of, to_lowercase, words, lemma_words_concat,
};

verus! {

/// A schedule.
#[derive(Clone, Copy, Debug, PartialEq, Eq, Structural)]
pub enum Recurrence {
    Daily { time: TimeOfDay },
    Weekly { weekday: Weekday, time: TimeOfDay },
    Monthly { day: u32, time: TimeOfDay },
}

/// Why a schedule could not be read, or no next instant found.
#[derive(Clone, Copy, Debug, PartialEq, Eq, Structural)]
pub enum RecurrenceError {
    TimeFormat,
    UnknownWeekday,
    MonthlyDayNotNumber,
    MonthlyDayOutOfRange,
    UnrecognizedSchedule,
    DateOverflow,
    InvalidMonth,
    NonexistentLocalTime,
    UnknownTimeZone,
}

impl RecurrenceError {
    pub open spec fn message_text(self) -> Seq<char> {
        match self {
            RecurrenceError::TimeFormat => "time must be HH:MM, for example 19:30"@,
            RecurrenceError::UnknownWeekday => "unknown weekday"@,
            RecurrenceError::MonthlyDayNotNumber => "monthly day must be a number"@,
            RecurrenceError::MonthlyDayOutOfRange => "monthly day must be between 1 and 31"@,
            RecurrenceError::UnrecognizedSchedule =>
                "use schedules like `daily 19:00`, `weekly fri 20:00`, or `monthly 15 19:30`"@,
            RecurrenceError::DateOverflow => "date overflow"@,
            RecurrenceError::InvalidMonth => "invalid month"@,
            RecurrenceError::NonexistentLocalTime => "local time does not exist in timezone"@,
            RecurrenceError::UnknownTimeZone => "unknown timezone"@,
        }
    }

    /// The text shown to the user.
    pub fn message(&self) -> (m: String)
        ensures
            m@ == self.message_text(),
    {
        let s = match self {
            RecurrenceError::TimeFormat => "time must be HH:MM, for example 19:30",
            RecurrenceError::UnknownWeekday => "unknown weekday",
            RecurrenceError::MonthlyDayNotNumber => "monthly day must be a number",
            RecurrenceError::MonthlyDayOutOfRange => "monthly day must be between 1 and 31",
            RecurrenceError::UnrecognizedSchedule =>
                "use schedules like `daily 19:00`, `weekly fri 20:00`, or `monthly 15 19:30`",
            RecurrenceError::DateOverflow => "date overflow",
            RecurrenceError::InvalidMonth => "invalid month",
            RecurrenceError::NonexistentLocalTime => "local time does not exist in timezone",
            RecurrenceError::UnknownTimeZone => "unknown timezone",
        };
        crate::validation::str_to_string(s)
    }
}

// ---------------------------------------------------------------------------
// Reading schedules
// ---------------------------------------------------------------------------

/// The week day a (lowercase) word names.
pub open spec fn weekday_named(w: Seq<char>) -> Option<Weekday> {
    if w == "mon"@ || w == "monday"@ {
        Some(Weekday::Mon)
    } else if w == "tue"@ || w == "tues"@ || w == "tuesday"@ {
        Some(Weekday::Tue)
    } else if w == "wed"@ || w == "wednesday"@ {
        Some(Weekday::Wed)
    } else if w == "thu"@ || w == "thur"@ || w == "thurs"@ || w == "thursday"@ {
        Some(Weekday::Thu)
    } else if w == "fri"@ || w == "friday"@ {
        Some(Weekday::Fri)
    } else if w == "sat"@ || w == "saturday"@ {
        Some(Weekday::Sat)
    } else if w == "sun"@ || w == "sunday"@ {
        Some(Weekday::Sun)
    } else {
        None
    }
}

pub open spec fn time_word(w: Seq<char>) -> Result<TimeOfDay, RecurrenceError> {
    match hour_minute_parse(w) {
        Some(t) => Ok(t),
        None => Err(RecurrenceError::TimeFormat),
    }
}

pub open spec fn weekday_word(w: Seq<char>) -> Result<Weekday, RecurrenceError> {
    match weekday_named(w) {
        Some(d) => Ok(d),
        None => Err(RecurrenceError::UnknownWeekday),
    }
}

/// The words of a schedule, a leading `every` dropped.
pub open spec fn schedule_words(raw: Seq<char>) -> Seq<Seq<char>> {
    let w = words(commas_as_spaces(lowercase(raw)));
    if w.len() > 0 && w[0] == "every"@ {
        w.drop_first()
    } else {
        w
    }
}

/// What `Recurrence::parse` gives for a schedule.
pub open spec fn parse_outcome(raw: Seq<char>) -> Result<Recurrence, RecurrenceError> {
    let p = schedule_words(raw);
    if p.len() == 2 && (p[0] == "daily"@ || p[0] == "everyday"@) {
        match time_word(p[1]) {
            Ok(time) => Ok(Recurrence::Daily { time }),
            Err(e) => Err(e),
        }
    } else if p.len() == 3 && p[0] == "weekly"@ {
        match weekday_word(p[1]) {
            Err(e) => Err(e),
            Ok(weekday) => match time_word(p[2]) {
                Ok(time) => Ok(Recurrence::Weekly { weekday, time }),
                Err(e) => Err(e),
            },
        }
    } else if p.len() == 2 && weekday_named(p[0]) is Some {
        match time_word(p[1]) {
            Ok(time) => Ok(Recurrence::Weekly { weekday: weekday_named(p[0])->0, time }),
            Err(e) => Err(e),
        }
    } else if p.len() == 3 && p[0] == "monthly"@ {
        match parse_unsigned(p[1], u32::MAX as nat) {
            None => Err(RecurrenceError::MonthlyDayNotNumber),
            Some(day) => if !(1 <= day <= 31) {
                Err(RecurrenceError::MonthlyDayOutOfRange)
            } else {
                match time_word(p[2]) {
                    Ok(time) => Ok(Recurrence::Monthly { day: day as u32, time }),
                    Err(e) => Err(e),
                }
            },
        }
    } else {
        Err(RecurrenceError::UnrecognizedSchedule)
    }
}

fn parse_weekday(w: &Vec<char>) -> (r: Result<Weekday, RecurrenceError>)
    ensures
        r == weekday_word(w@),
{
    if chars_eq_str(w, "mon") || chars_eq_str(w, "monday") {
        Ok(Weekday::Mon)
    } else if chars_eq_str(w, "tue") || chars_eq_str(w, "tues") || chars_eq_str(w, "tuesday") {
        Ok(Weekday::Tue)
    } else if chars_eq_str(w, "wed") || chars_eq_str(w, "wednesday") {
        Ok(Weekday::Wed)
    } else if chars_eq_str(w, "thu") || chars_eq_str(w, "thur") || chars_eq_str(w, "thurs")
        || chars_eq_str(w, "thursday") {
        Ok(Weekday::Thu)
    } else if chars_eq_str(w, "fri") || chars_eq_str(w, "friday") {
        Ok(Weekday::Fri)
    } else if chars_eq_str(w, "sat") || chars_eq_str(w, "saturday") {
        Ok(Weekday::Sat)
    } else if chars_eq_str(w, "sun") || chars_eq_str(w, "sunday") {
        Ok(Weekday::Sun)
    } else {
        Err(RecurrenceError::UnknownWeekday)
    }
}

fn parse_time(w: &Vec<char>) -> (r: Result<TimeOfDay, RecurrenceError>)
    ensures
        r == time_word(w@),
        r matches Ok(t) ==> valid_time(t),
{
    let s = string_of(w);
    match parse_hour_minute(s.as_str()) {
        Some(t) => Ok(t),
        None => Err(RecurrenceError::TimeFormat),
    }
}

fn parse_day(w: &Vec<char>) -> (r: Option<u32>)
    ensures
        r matches Some(v) ==> parse_unsigned(w@, u32::MAX as nat) == Some(v as nat),
        r is None ==> parse_unsigned(w@, u32::MAX as nat) is None,
{
    let s = string_of(w);
    match parse_u64(s.as_str()) {
        Some(v) => if v <= u32::MAX as u64 {
            Some(v as u32)
        } else {
            None
        },
        None => None,
    }
}

impl Recurrence {
    /// Reads a schedule such as `daily 19:00`, `weekly fri 20:00`,
    /// `friday 20:00` or `monthly 15 19:30`, in any case, with an optional
    /// leading `every`.
    pub fn parse(raw: &str) -> (r: Result<Recurrence, RecurrenceError>)
        ensures
            r == parse_outcome(raw@),
            r matches Ok(rec) ==> rec.is_valid(),
    {
        let lowered = to_lowercase(raw);
        let cleaned = commas_to_spaces(&chars_of(lowered.as_str()));
        let mut parts = split_whitespace(&cleaned);
        let ghost w = words(commas_as_spaces(lowercase(raw@)));
        if parts.len() > 0 && chars_eq_str(&parts[0], "every") {
            parts.remove(0);
        }
        let ghost p = schedule_words(raw@);
        assert(parts@.len() == p.len());
        assert(forall|k: int| 0 <= k < parts@.len() ==> (#[trigger] parts@[k])@ == p[k]);
        if parts.len() == 2 && (chars_eq_str(&parts[0], "daily") || chars_eq_str(
            &parts[0],
            "everyday",
        )) {
            let time = parse_time(&parts[1])?;
            Ok(Recurrence::Daily { time })
        } else if parts.len() == 3 && chars_eq_str(&parts[0], "weekly") {
            let weekday = parse_weekday(&parts[1])?;
            let time = parse_time(&parts[2])?;
            Ok(Recurrence::Weekly { weekday, time })
        } else if parts.len() == 2 && parse_weekday(&parts[0]).is_ok() {
            let weekday = parse_weekday(&parts[0])?;
            let time = parse_time(&parts[1])?;
            Ok(Recurrence::Weekly { weekday, time })
        } else if parts.len() == 3 && chars_eq_str(&parts[0], "monthly") {
            let day = match parse_day(&parts[1]) {
                Some(d) => d,
                None => return Err(RecurrenceError::MonthlyDayNotNumber),
            };
            if !(1 <= day && day <= 31) {
                return Err(RecurrenceError::MonthlyDayOutOfRange);
            }
            let time = parse_time(&parts[2])?;
            Ok(Recurrence::Monthly { day, time })
        } else {
            Err(RecurrenceError::UnrecognizedSchedule)
        }
    }

    /// The time of day holds a valid hour and minute.
    pub open spec fn is_valid(self) -> bool {
        match self {
            Recurrence::Daily { time } => valid_time(time),
            Recurrence::Weekly { time, .. } => valid_time(time),
            Recurrence::Monthly { time, .. } => valid_time(time),
        }
    }
}

// ---------------------------------------------------------------------------
// The next instant of a schedule
// ---------------------------------------------------------------------------

/// How a zone maps a local date and time to an instant: the earlier one when
/// the time exists twice; when it falls in a gap, the same time one hour
/// later.
pub open spec fn resolve_local(zone: Seq<char>, date: Date, time: TimeOfDay) -> Result<
    UtcTimestamp,
    RecurrenceError,
> {
    match zone_mapping(
        zone,
        date.year as int,
        date.month as int,
        date.day as int,
        time.hour as int,
        time.minute as int,
    ) {
        LocalMapping::Single(t) => Ok(t),
        LocalMapping::Ambiguous(t, _) => Ok(t),
        LocalMapping::UnknownZone => Err(RecurrenceError::UnknownTimeZone),
        LocalMapping::Gap => match hour_later(date, time) {
            None => Err(RecurrenceError::DateOverflow),
            Some((d2, t2)) => match zone_mapping(
                zone,
                d2.year as int,
                d2.month as int,
                d2.day as int,
                t2.hour as int,
                t2.minute as int,
            ) {
                LocalMapping::Single(t) => Ok(t),
                LocalMapping::Ambiguous(t, _) => Ok(t),
                LocalMapping::UnknownZone => Err(RecurrenceError::UnknownTimeZone),
                LocalMapping::Gap => Err(RecurrenceError::NonexistentLocalTime),
            },
        },
    }
}

pub(crate) fn local_datetime(zone: &str, date: Date, time: TimeOfDay) -> (r: Result<
    UtcTimestamp,
    RecurrenceError,
>)
    requires
        valid_date(date),
        valid_time(time),
    ensures
        r == resolve_local(zone@, date, time),
        r matches Ok(u) ==> u.secs > naive_seconds(date, time) - 86400,
        (r == Err::<UtcTimestamp, RecurrenceError>(RecurrenceError::UnknownTimeZone))
            == !known_zone(zone@),
{
    match local_mapping(zone, date, time) {
        LocalMapping::Single(t) => Ok(t),
        LocalMapping::Ambiguous(t, _) => Ok(t),
        LocalMapping::UnknownZone => Err(RecurrenceError::UnknownTimeZone),
        LocalMapping::Gap => {
            match one_hour_later(date, time) {
                None => Err(RecurrenceError::DateOverflow),
                Some((d2, t2)) => {
                    assert(valid_date(d2) && valid_time(t2));
                    proof {
                        lemma_hour_later_seconds(date, time);
                    }
                    match local_mapping(zone, d2, t2) {
                        LocalMapping::Single(t) => Ok(t),
                        LocalMapping::Ambiguous(t, _) => Ok(t),
                        LocalMapping::UnknownZone => Err(RecurrenceError::UnknownTimeZone),
                        LocalMapping::Gap => Err(RecurrenceError::NonexistentLocalTime),
                    }
                },
            }
        },
    }
}

/// The instant of the `k`-th day from `start`, or why there is none.
pub open spec fn daily_candidate(zone: Seq<char>, time: TimeOfDay, start: Date, k: nat) -> Result<
    UtcTimestamp,
    RecurrenceError,
> {
    match days_after(start, k) {
        None => Err(RecurrenceError::DateOverflow),
        Some(d) => resolve_local(zone, d, time),
    }
}

/// An outcome that ends the search: an error, or an instant after `after`.
pub open spec fn ends_search(r: Result<UtcTimestamp, RecurrenceError>, after: UtcTimestamp) -> bool {
    match r {
        Ok(t) => !not_later(t, after),
        Err(_) => true,
    }
}

/// The first `k` candidates all came at or before `after`.
pub open spec fn daily_misses(
    zone: Seq<char>,
    time: TimeOfDay,
    after: UtcTimestamp,
    start: Date,
    k: nat,
) -> bool {
    forall|j: nat| j < k ==> !ends_search(#[trigger] daily_candidate(zone, time, start, j), after)
}

/// The month `k` months after `year`-`month`.
pub open spec fn month_after(year: int, month: int, k: nat) -> (int, int) {
    (year + (month - 1 + k) / 12, (month - 1 + k) % 12 + 1)
}

/// The date with the wanted day in that month, or the month's last day when
/// the month is shorter; `None` when no such date exists.
pub open spec fn clamped_date(year: int, month: int, wanted: int) -> Option<Date> {
    if wanted >= 1 && MIN_YEAR <= year <= MAX_YEAR && 1 <= month <= 12 {
        Some(
            Date {
                year: year as i32,
                month: month as u32,
                day: (if wanted <= days_in_month(year, month) {
                    wanted
                } else {
                    days_in_month(year, month)
                }) as u32,
            },
        )
    } else {
        None
    }
}

pub open spec fn monthly_candidate(
    zone: Seq<char>,
    day: u32,
    time: TimeOfDay,
    year: int,
    month: int,
    k: nat,
) -> Result<UtcTimestamp, RecurrenceError> {
    let (y, m) = month_after(year, month, k);
    match clamped_date(y, m, day as int) {
        None => Err(RecurrenceError::InvalidMonth),
        Some(d) => resolve_local(zone, d, time),
    }
}

pub open spec fn monthly_misses(
    zone: Seq<char>,
    day: u32,
    time: TimeOfDay,
    after: UtcTimestamp,
    year: int,
    month: int,
    k: nat,
) -> bool {
    forall|j: nat|
        j < k ==> !ends_search(#[trigger] monthly_candidate(zone, day, time, year, month, j), after)
}

/// The daily search from `start` ends at its first candidate that is an
/// error or after `after`.
pub open spec fn daily_outcome(
    zone: Seq<char>,
    time: TimeOfDay,
    after: UtcTimestamp,
    start: Date,
    r: Result<UtcTimestamp, RecurrenceError>,
) -> bool {
    exists|k: nat|
        {
            &&& daily_misses(zone, time, after, start, k)
            &&& r == #[trigger] daily_candidate(zone, time, start, k)
            &&& ends_search(r, after)
        }
}

/// The monthly search from `start`'s month ends at its first candidate
/// that is an error or after `after`.
pub open spec fn monthly_outcome(
    zone: Seq<char>,
    day: u32,
    time: TimeOfDay,
    after: UtcTimestamp,
    start: Date,
    r: Result<UtcTimestamp, RecurrenceError>,
) -> bool {
    exists|k: nat|
        {
            &&& monthly_misses(zone, day, time, after, start.year as int, start.month as int, k)
            &&& r == #[trigger] monthly_candidate(
                zone,
                day,
                time,
                start.year as int,
                start.month as int,
                k,
            )
            &&& ends_search(r, after)
        }
}

/// The weekly search: the next date on the week day (`start` itself
/// included); when its instant is not after `after`, the same day a week
/// later.
pub open spec fn weekly_outcome(
    zone: Seq<char>,
    weekday: Weekday,
    time: TimeOfDay,
    after: UtcTimestamp,
    start: Date,
) -> Result<UtcTimestamp, RecurrenceError> {
    let days_until = ((weekday.index() - weekday_index(start)) % 7) as nat;
    match days_after(start, days_until) {
        None => Err(RecurrenceError::DateOverflow),
        Some(d1) => match resolve_local(zone, d1, time) {
            Err(e) => Err(e),
            Ok(t1) => if !not_later(t1, after) {
                Ok(t1)
            } else {
                match days_after(d1, 7) {
                    None => Err(RecurrenceError::DateOverflow),
                    Some(d2) => resolve_local(zone, d2, time),
                }
            },
        },
    }
}

/// What `next_after` gives for a schedule, a zone and an instant; the search
/// starts at the local date of `after` in the zone.
pub open spec fn next_after_outcome(
    rec: Recurrence,
    zone: Seq<char>,
    after: UtcTimestamp,
    r: Result<UtcTimestamp, RecurrenceError>,
) -> bool {
    match zone_local_date(zone, after.secs as int, after.nanos as int) {
        None => r == Err::<UtcTimestamp, RecurrenceError>(RecurrenceError::UnknownTimeZone),
        Some(start) => match rec {
            Recurrence::Daily { time } => daily_outcome(zone, time, after, start, r),
            Recurrence::Weekly { weekday, time } => r == weekly_outcome(
                zone,
                weekday,
                time,
                after,
                start,
            ),
            Recurrence::Monthly { day, time } => monthly_outcome(zone, day, time, after, start, r),
        },
    }
}

/// Position of a valid date in a count that grows from day to day.
pub open spec fn date_rank(d: Date) -> int {
    (d.year - MIN_YEAR) * 400 + d.month * 32 + d.day
}

proof fn lemma_following_day_rank(d: Date)
    requires
        valid_date(d),
        valid_date(following_day(d)),
    ensures
        date_rank(d) < date_rank(following_day(d)),
        date_rank(following_day(d)) <= (MAX_YEAR - MIN_YEAR) * 400 + 12 * 32 + 31,
{
}

fn clamped_month_date(year: i32, month: u32, wanted_day: u32) -> (r: Option<Date>)
    ensures
        r == clamped_date(year as int, month as int, wanted_day as int),
        r matches Some(d) ==> valid_date(d),
{
    let mut day = wanted_day;
    while day > 0
        invariant
            day <= wanted_day,
            forall|d: int| day < d <= wanted_day ==> !valid_ymd(year as int, month as int, d),
        decreases day,
    {
        if let Some(date) = date_from_ymd(year, month, day) {
            proof {
                if day < wanted_day {
                    assert(!valid_ymd(year as int, month as int, day + 1));
                }
            }
            return Some(date);
        }
        day -= 1;
    }
    proof {
        if wanted_day >= 1 && MIN_YEAR <= year <= MAX_YEAR && 1 <= month <= 12 {
            assert(valid_ymd(year as int, month as int, 1));
        }
    }
    None
}

/// The first daily candidate from `start` that ends the search.
fn next_daily(zone: &str, time: TimeOfDay, start: Date, after: UtcTimestamp) -> (r: Result<
    UtcTimestamp,
    RecurrenceError,
>)
    requires
        valid_date(start),
        valid_time(time),
    ensures
        daily_outcome(zone@, time, after, start, r),
        known_zone(zone@) ==> r != Err::<UtcTimestamp, RecurrenceError>(
            RecurrenceError::UnknownTimeZone,
        ),
{
    let mut date = start;
    let ghost mut k: nat = 0;
    let mut local = local_datetime(zone, date, time);
    loop
        invariant
            valid_date(start),
            valid_date(date),
            valid_time(time),
            days_after(start, k) == Some(date),
            local == daily_candidate(zone@, time, start, k),
            daily_misses(zone@, time, after, start, k),
            known_zone(zone@) ==> local != Err::<UtcTimestamp, RecurrenceError>(
                RecurrenceError::UnknownTimeZone,
            ),
        decreases (MAX_YEAR - MIN_YEAR) * 400 + 12 * 32 + 31 - date_rank(date),
    {
        let ends = match local {
            Err(_) => true,
            Ok(t) => !t.is_not_later_than(&after),
        };
        if ends {
            assert(daily_candidate(zone@, time, start, k) == local);
            return local;
        }
        proof {
            assert forall|j: nat| j < k + 1 implies !ends_search(
                #[trigger] daily_candidate(zone@, time, start, j),
                after,
            ) by {
                if j < k {
                }
            }
            reveal_with_fuel(days_after, 2);
        }
        match add_days(date, 1) {
            None => {
                proof {
                    assert(days_after(start, k + 1) is None);
                    assert(daily_candidate(zone@, time, start, k + 1) == Err::<
                        UtcTimestamp,
                        RecurrenceError,
                    >(RecurrenceError::DateOverflow));
                }
                return Err(RecurrenceError::DateOverflow);
            },
            Some(next) => {
                proof {
                    assert(next == following_day(date));
                    lemma_following_day_rank(date);
                    assert(days_after(start, k + 1) == Some(next));
                    k = k + 1;
                }
                date = next;
            },
        }
        local = local_datetime(zone, date, time);
    }
}

/// The first monthly candidate from `start`'s month that ends the search.
fn next_monthly(zone: &str, day: u32, time: TimeOfDay, start: Date, after: UtcTimestamp) -> (r:
    Result<UtcTimestamp, RecurrenceError>)
    requires
        valid_date(start),
        valid_time(time),
    ensures
        monthly_outcome(zone@, day, time, after, start, r),
        known_zone(zone@) ==> r != Err::<UtcTimestamp, RecurrenceError>(
            RecurrenceError::UnknownTimeZone,
        ),
{
    let mut year = start.year;
    let mut month = start.month;
    let ghost mut k: nat = 0;
    loop
        invariant
            valid_time(time),
            valid_date(start),
            MIN_YEAR <= year,
            1 <= month <= 12,
            month_after(start.year as int, start.month as int, k) == (year as int, month as int),
            monthly_misses(zone@, day, time, after, start.year as int, start.month as int, k),
        decreases (MAX_YEAR + 1 - year) * 12 + 12 - month,
    {
        let local = match clamped_month_date(year, month, day) {
            Some(date) => local_datetime(zone, date, time),
            None => Err(RecurrenceError::InvalidMonth),
        };
        assert(local == monthly_candidate(
            zone@,
            day,
            time,
            start.year as int,
            start.month as int,
            k,
        ));
        let ends = match local {
            Err(_) => true,
            Ok(t) => !t.is_not_later_than(&after),
        };
        if ends {
            return local;
        }
        proof {
            assert forall|j: nat| j < k + 1 implies !ends_search(
                #[trigger] monthly_candidate(
                    zone@,
                    day,
                    time,
                    start.year as int,
                    start.month as int,
                    j,
                ),
                after,
            ) by {
                if j < k {
                }
            }
            lemma_month_after_step(start.year as int, start.month as int, k);
            k = k + 1;
        }
        if month == 12 {
            year += 1;
            month = 1;
        } else {
            month += 1;
        }
    }
}

/// The weekly search from `start`.
fn next_weekly(zone: &str, weekday: Weekday, time: TimeOfDay, start: Date, after: UtcTimestamp) -> (r:
    Result<UtcTimestamp, RecurrenceError>)
    requires
        valid_date(start),
        valid_time(time),
        after.secs < epoch_days(start) * 86400 + 2 * 86400,
    ensures
        r == weekly_outcome(zone@, weekday, time, after, start),
        r matches Ok(t) ==> !not_later(t, after),
        known_zone(zone@) ==> r != Err::<UtcTimestamp, RecurrenceError>(
            RecurrenceError::UnknownTimeZone,
        ),
{
    let current = weekday_of(start).num_days_from_monday() as i64;
    let target = weekday.num_days_from_monday() as i64;
    let days_until = (target - current + 7) % 7;
    proof {
        lemma_mod_shift(target as int, current as int);
    }
    let date = match add_days(start, days_until as u64) {
        Some(d) => d,
        None => return Err(RecurrenceError::DateOverflow),
    };
    proof {
        lemma_days_after_valid(start, days_until as nat);
    }
    let local = match local_datetime(zone, date, time) {
        Ok(t) => t,
        Err(e) => return Err(e),
    };
    if !local.is_not_later_than(&after) {
        return Ok(local);
    }
    let date2 = match add_days(date, 7) {
        Some(d) => d,
        None => return Err(RecurrenceError::DateOverflow),
    };
    proof {
        lemma_days_after_valid(date, 7);
        lemma_days_after_epoch(start, days_until as nat);
        lemma_days_after_epoch(date, 7);
        assert(epoch_days(date2) >= epoch_days(start) + 7);
        assert(naive_seconds(date2, time) >= epoch_days(date2) * 86400);
    }
    local_datetime(zone, date2, time)
}

impl Recurrence {
    /// The first instant of the schedule, in the zone named `timezone`,
    /// strictly after `after`.
    pub fn next_after(&self, timezone: &str, after: UtcTimestamp) -> (r: Result<
        UtcTimestamp,
        RecurrenceError,
    >)
        requires
            self.is_valid(),
            in_calendar_range(after),
        ensures
            next_after_outcome(*self, timezone@, after, r),
            r matches Ok(t) ==> !not_later(t, after),
            (r == Err::<UtcTimestamp, RecurrenceError>(RecurrenceError::UnknownTimeZone))
                == !known_zone(timezone@),
    {
        let start = match local_date(timezone, after) {
            Some(d) => d,
            None => return Err(RecurrenceError::UnknownTimeZone),
        };
        match self {
            Recurrence::Daily { time } => next_daily(timezone, *time, start, after),
            Recurrence::Weekly { weekday, time } => next_weekly(timezone, *weekday, *time, start, after),
            Recurrence::Monthly { day, time } => next_monthly(timezone, *day, *time, start, after),
        }
    }
}

proof fn lemma_mod_shift(t: int, c: int)
    requires
        0 <= t < 7,
        0 <= c < 7,
    ensures
        (t - c + 7) % 7 == (t - c) % 7,
{
}

proof fn lemma_days_after_valid(d: Date, n: nat)
    requires
        valid_date(d),
        days_after(d, n) is Some,
    ensures
        valid_date(days_after(d, n)->0),
    decreases n,
{
    if n > 0 {
        lemma_days_after_valid(d, (n - 1) as nat);
    }
}

proof fn lemma_month_after_step(year: int, month: int, k: nat)
    requires
        1 <= month <= 12,
    ensures
        ({
            let (y, m) = month_after(year, month, k);
            month_after(year, month, k + 1) == (if m == 12 {
                (y + 1, 1)
            } else {
                (y, m + 1)
            })
        }),
{
    let a = month - 1 + k;
    assert(a >= 0);
    let q = a / 12;
    let r = a % 12;
    assert(a == q * 12 + r);
    if r == 11 {
        assert((a + 1) / 12 == q + 1 && (a + 1) % 12 == 0) by (nonlinear_arith)
            requires
                a == q * 12 + r,
                r == 11,
        ;
    } else {
        assert((a + 1) / 12 == q && (a + 1) % 12 == r + 1) by (nonlinear_arith)
            requires
                a == q * 12 + r,
                0 <= r < 11,
        ;
    }
}

/// Reads a schedule and gives its first instant strictly after `after`.
pub fn next_occurrence(schedule: &str, timezone: &str, after: UtcTimestamp) -> (r: Result<
    UtcTimestamp,
    RecurrenceError,
>)
    requires
        in_calendar_range(after),
    ensures
        match parse_outcome(schedule@) {
            Err(e) => r == Err::<UtcTimestamp, RecurrenceError>(e),
            Ok(rec) => next_after_outcome(rec, timezone@, after, r),
        },
        r matches Ok(t) ==> !not_later(t, after),
{
    let rec = Recurrence::parse(schedule)?;
    rec.next_after(timezone, after)
}


/// A schedule reads the same in any letter case: written in capitals it
/// gives what it gives in small letters (shown for ASCII schedules).
pub proof fn law_parse_ignores_case(raw: Seq<char>)
    requires
        all_ascii(raw),
    ensures
        parse_outcome(ascii_uppered(raw)) == parse_outcome(raw),
        parse_outcome(ascii_lowered(raw)) == parse_outcome(raw),
{
    let up = ascii_uppered(raw);
    let low = ascii_lowered(raw);
    assert forall|i: int| 0 <= i < raw.len() implies (#[trigger] up[i] as u32) < 128 && (
    #[trigger] low[i] as u32) < 128 && ascii_lower(up[i]) == ascii_lower(raw[i]) && ascii_lower(
        low[i],
    ) == ascii_lower(raw[i]) by {
        assert((raw[i] as u32) < 128);
    }
    assert(ascii_lowered(up) =~= ascii_lowered(raw));
    assert(ascii_lowered(low) =~= ascii_lowered(raw));
    assert(lowercase(up) == lowercase(raw));
    assert(lowercase(low) == lowercase(raw));
}


/// The first word of a schedule, read in small letters and with commas as
/// spaces, is `every`.
pub open spec fn starts_with_every(raw: Seq<char>) -> bool {
    let w = words(commas_as_spaces(lowercase(raw)));
    w.len() > 0 && w[0] == "every"@
}

/// A leading `every` changes nothing: `every daily 19:00` reads as
/// `daily 19:00` (shown for ASCII schedules that do not already start with
/// `every`).
pub proof fn law_parse_every_prefix(raw: Seq<char>)
    requires
        all_ascii(raw),
        !starts_with_every(raw),
    ensures
        parse_outcome("every "@ + raw) == parse_outcome(raw),
{
    reveal_strlit("every ");
    reveal_strlit("every");
    let p = "every "@;
    let full = p + raw;
    assert forall|i: int| 0 <= i < full.len() implies (#[trigger] full[i] as u32) < 128 by {
        if i >= p.len() {
            assert(full[i] == raw[i - p.len()]);
        }
    }
    assert(ascii_lowered(full) =~= p + ascii_lowered(raw));
    let low = lowercase(raw);
    assert(commas_as_spaces(p + low) =~= p + commas_as_spaces(low));
    let rest = commas_as_spaces(low);
    lemma_words_concat(p, rest);
    let pw = "every"@;
    assert(pw.drop_last().drop_last().drop_last().drop_last() =~= seq!['e']);
    assert(!is_whitespace('e') && !is_whitespace('v') && !is_whitespace('r') && !is_whitespace(
        'y',
    ));
    assert(words(seq!['e']) =~= seq![seq!['e']]) by {
        assert(seq!['e'].drop_last() =~= Seq::<char>::empty());
        assert(words(Seq::<char>::empty()) =~= Seq::<Seq<char>>::empty());
        assert(seq!['e'].last() == 'e');
    }
    assert(words(seq!['e', 'v']) =~= seq![seq!['e', 'v']]) by {
        assert(seq!['e', 'v'].drop_last() =~= seq!['e']);
        assert(seq!['e'].push('v') =~= seq!['e', 'v']);
    }
    assert(words(seq!['e', 'v', 'e']) =~= seq![seq!['e', 'v', 'e']]) by {
        assert(seq!['e', 'v', 'e'].drop_last() =~= seq!['e', 'v']);
        assert(seq!['e', 'v'].push('e') =~= seq!['e', 'v', 'e']);
    }
    assert(words(seq!['e', 'v', 'e', 'r']) =~= seq![seq!['e', 'v', 'e', 'r']]) by {
        assert(seq!['e', 'v', 'e', 'r'].drop_last() =~= seq!['e', 'v', 'e']);
        assert(seq!['e', 'v', 'e'].push('r') =~= seq!['e', 'v', 'e', 'r']);
    }
    assert(words(pw) =~= seq![pw]) by {
        assert(pw.drop_last() =~= seq!['e', 'v', 'e', 'r']);
        assert(pw =~= seq!['e', 'v', 'e', 'r', 'y']);
        assert(seq!['e', 'v', 'e', 'r'].push('y') =~= pw);
    }
    assert(words(p) =~= seq![pw]) by {
        assert(p.drop_last() =~= pw);
    }
    let w = words(p + rest);
    assert(w =~= seq![pw] + words(rest));
    assert(w.drop_first() =~= words(rest));
}


/// The text with each space written as a comma and a space, as
/// `str::replace(' ', ", ")` gives it.
pub open spec fn spaces_as_commas(s: Seq<char>) -> Seq<char>
    decreases s.len(),
{
    if s.len() == 0 {
        Seq::empty()
    } else if s.last() == ' ' {
        spaces_as_commas(s.drop_last()).push(',').push(' ')
    } else {
        spaces_as_commas(s.drop_last()).push(s.last())
    }
}

/// A text as `Recurrence::parse` reads it before splitting: ASCII letters in
/// small case, commas as spaces.
spec fn folded(s: Seq<char>) -> Seq<char> {
    commas_as_spaces(ascii_lowered(s))
}

spec fn folded_char(c: char) -> char {
    if c == ',' {
        ' '
    } else {
        ascii_lower(c)
    }
}

proof fn lemma_folded_push(s: Seq<char>, c: char)
    ensures
        folded(s.push(c)) == folded(s).push(folded_char(c)),
{
    assert(folded(s.push(c)) =~= folded(s).push(folded_char(c)));
}

proof fn lemma_spaces_as_commas_words(s: Seq<char>)
    requires
        all_ascii(s),
    ensures
        all_ascii(spaces_as_commas(s)),
        words(folded(spaces_as_commas(s))) == words(folded(s)),
        s.len() == 0 <==> spaces_as_commas(s).len() == 0,
        s.len() > 0 ==> (is_whitespace(folded(spaces_as_commas(s)).last()) <==> is_whitespace(
            folded(s).last(),
        )),
        s.len() > 0 && !is_whitespace(folded(s).last()) ==> folded(spaces_as_commas(s)).last()
            == folded(s).last(),
    decreases s.len(),
{
    if s.len() > 0 {
        let t = s.drop_last();
        let c = s.last();
        assert forall|i: int| 0 <= i < t.len() implies (#[trigger] t[i] as u32) < 128 by {
            assert(t[i] == s[i]);
        }
        lemma_spaces_as_commas_words(t);
        assert(t.push(c) =~= s);
        lemma_folded_push(t, c);
        let rt = spaces_as_commas(t);
        let y = folded(rt);
        let ft = folded(t);
        assert(ft.len() == t.len());
        if c == ' ' {
            lemma_folded_push(rt, ',');
            lemma_folded_push(rt.push(','), ' ');
            let y2 = y.push(' ').push(' ');
            assert(y2.drop_last() =~= y.push(' '));
            assert(y.push(' ').drop_last() =~= y);
            assert(ft.push(' ').drop_last() =~= ft);
            assert(is_whitespace(' '));
            assert(folded_char(' ') == ' ');
            assert(words(y2) == words(y.push(' ')));
            assert(words(y.push(' ')) == words(y));
            assert(words(ft.push(' ')) == words(ft));
            assert(folded(spaces_as_commas(s)) == y2);
            let rs = spaces_as_commas(s);
            assert forall|i: int| 0 <= i < rs.len() implies (#[trigger] rs[i] as u32) < 128 by {
                if i < rt.len() {
                    assert(rs[i] == rt[i]);
                }
            }
        } else {
            lemma_folded_push(rt, c);
            let d = folded_char(c);
            assert(y.push(d).drop_last() =~= y);
            assert(ft.push(d).drop_last() =~= ft);
            if y.len() > 0 {
                assert(y.push(d)[y.push(d).len() - 2] == y.last());
            }
            if ft.len() > 0 {
                assert(ft.push(d)[ft.push(d).len() - 2] == ft.last());
            }
            assert(t.len() == 0 ==> y.len() == 0 && ft.len() == 0);
            assert(t.len() > 0 ==> y.len() > 0 && ft.len() > 0);
            assert(words(y.push(d)) == words(ft.push(d)));
            assert(folded(spaces_as_commas(s)) == y.push(d));
            let rs = spaces_as_commas(s);
            assert forall|i: int| 0 <= i < rs.len() implies (#[trigger] rs[i] as u32) < 128 by {
                if i < rt.len() {
                    assert(rs[i] == rt[i]);
                } else {
                    assert((s[s.len() - 1] as u32) < 128);
                }
            }
        }
    }
}

/// Commas between the words of a schedule change nothing:
/// `weekly, fri, 20:00` reads as `weekly fri 20:00` (shown for ASCII
/// schedules).
pub proof fn law_parse_commas(raw: Seq<char>)
    requires
        all_ascii(raw),
    ensures
        parse_outcome(spaces_as_commas(raw)) == parse_outcome(raw),
{
    lemma_spaces_as_commas_words(raw);
}


proof fn lemma_week_offset(s: int, i: int, m: int, du: int)
    requires
        0 <= s < 7,
        0 <= i < 7,
        du == (i - s) % 7,
        0 <= m,
    ensures
        0 <= du < 7,
        (s + du) % 7 == i,
        (s + du + 7) % 7 == i,
        (s + m) % 7 == i && m < du + 7 ==> m == du,
{
}

/// `t` is the instant of `time` in the zone on the date `n` days after
/// `start`, that date falls on `weekday`, and each earlier date from `start`
/// on that week day gives an instant at or before `after`.
pub open spec fn weekday_instant_at(
    weekday: Weekday,
    time: TimeOfDay,
    zone: Seq<char>,
    after: UtcTimestamp,
    start: Date,
    t: UtcTimestamp,
    n: nat,
) -> bool {
    &&& days_after(start, n) is Some
    &&& weekday_index(days_after(start, n)->0) == weekday.index()
    &&& resolve_local(zone, days_after(start, n)->0, time) == Ok::<UtcTimestamp, RecurrenceError>(t)
    &&& forall|m: nat|
        m < n && #[trigger] days_after(start, m) is Some && weekday_index(days_after(start, m)->0)
            == weekday.index() ==> (resolve_local(zone, days_after(start, m)->0, time) matches Ok(u)
            && not_later(u, after))
}

/// A weekly schedule posts on its week day: the instant found is the
/// schedule's time, in the zone, on a date that falls on that week day, less
/// than two weeks from the local date of `after`; every earlier date from
/// there on that week day was passed over because its instant came at or
/// before `after`.
pub proof fn law_weekly_on_its_day(
    weekday: Weekday,
    time: TimeOfDay,
    zone: Seq<char>,
    after: UtcTimestamp,
    t: UtcTimestamp,
)
    ensures
        match zone_local_date(zone, after.secs as int, after.nanos as int) {
            Some(start) => valid_date(start) && next_after_outcome(
                Recurrence::Weekly { weekday, time },
                zone,
                after,
                Ok(t),
            ) ==> exists|n: nat|
                n < 14 && #[trigger] weekday_instant_at(weekday, time, zone, after, start, t, n),
            None => true,
        },
{
    let rec = Recurrence::Weekly { weekday, time };
    if let Some(start) = zone_local_date(zone, after.secs as int, after.nanos as int) {
        if valid_date(start) && next_after_outcome(rec, zone, after, Ok(t)) {
            let s = weekday_index(start);
            let i = weekday.index();
            crate::calendar::lemma_weekday_range(start);
            let du = ((i - s) % 7) as nat;
            lemma_week_offset(s, i, 0, (i - s) % 7);
            let d1 = days_after(start, du)->0;
            lemma_weekday_after(start, du);
            crate::calendar::lemma_days_after_epoch(start, du);
            let t1 = resolve_local(zone, d1, time)->Ok_0;
            assert forall|m: nat|
                m < du + 7 && #[trigger] days_after(start, m) is Some && weekday_index(
                    days_after(start, m)->0,
                ) == i implies m == du by {
                lemma_weekday_after(start, m);
                lemma_week_offset(s, i, m as int, (i - s) % 7);
            }
            if !not_later(t1, after) {
                assert(weekday_instant_at(weekday, time, zone, after, start, t, du));
            } else {
                lemma_days_after_add(start, du, 7);
                let n = du + 7;
                lemma_weekday_after(start, n);
                assert(weekday_instant_at(weekday, time, zone, after, start, t, n));
            }
        }
    }
}


/// The name `chrono` writes for a week day (`%A`), in small letters.
pub open spec fn day_name_lower(w: Weekday) -> Seq<char> {
    ascii_lowered(weekday_name(w.index()))
}

proof fn lemma_names_mon()
    ensures
        day_name_lower(Weekday::Mon) == "monday"@,
        forall|x: Seq<char>|
            weekday_named(x) == Some(Weekday::Mon) ==> 3 <= x.len() <= "monday"@.len()
                && "monday"@.take(x.len() as int) == x,
{
    reveal_strlit("Monday");
    reveal_strlit("monday");
    reveal_strlit("mon");
    reveal_strlit("monday");
    assert(ascii_lowered("Monday"@) =~= "monday"@);
    assert("mon"@ =~= "monday"@.take(3));
    assert("monday"@ =~= "monday"@.take(6));
}

proof fn lemma_names_tue()
    ensures
        day_name_lower(Weekday::Tue) == "tuesday"@,
        forall|x: Seq<char>|
            weekday_named(x) == Some(Weekday::Tue) ==> 3 <= x.len() <= "tuesday"@.len()
                && "tuesday"@.take(x.len() as int) == x,
{
    reveal_strlit("Tuesday");
    reveal_strlit("tuesday");
    reveal_strlit("tue");
    reveal_strlit("tues");
    reveal_strlit("tuesday");
    assert(ascii_lowered("Tuesday"@) =~= "tuesday"@);
    assert("tue"@ =~= "tuesday"@.take(3));
    assert("tues"@ =~= "tuesday"@.take(4));
    assert("tuesday"@ =~= "tuesday"@.take(7));
}

proof fn lemma_names_wed()
    ensures
        day_name_lower(Weekday::Wed) == "wednesday"@,
        forall|x: Seq<char>|
            weekday_named(x) == Some(Weekday::Wed) ==> 3 <= x.len() <= "wednesday"@.len()
                && "wednesday"@.take(x.len() as int) == x,
{
    reveal_strlit("Wednesday");
    reveal_strlit("wednesday");
    reveal_strlit("wed");
    reveal_strlit("wednesday");
    assert(ascii_lowered("Wednesday"@) =~= "wednesday"@);
    assert("wed"@ =~= "wednesday"@.take(3));
    assert("wednesday"@ =~= "wednesday"@.take(9));
}

proof fn lemma_names_thu()
    ensures
        day_name_lower(Weekday::Thu) == "thursday"@,
        forall|x: Seq<char>|
            weekday_named(x) == Some(Weekday::Thu) ==> 3 <= x.len() <= "thursday"@.len()
                && "thursday"@.take(x.len() as int) == x,
{
    reveal_strlit("Thursday");
    reveal_strlit("thursday");
    reveal_strlit("thu");
    reveal_strlit("thur");
    reveal_strlit("thurs");
    reveal_strlit("thursday");
    assert(ascii_lowered("Thursday"@) =~= "thursday"@);
    assert("thu"@ =~= "thursday"@.take(3));
    assert("thur"@ =~= "thursday"@.take(4));
    assert("thurs"@ =~= "thursday"@.take(5));
    assert("thursday"@ =~= "thursday"@.take(8));
}

proof fn lemma_names_fri()
    ensures
        day_name_lower(Weekday::Fri) == "friday"@,
        forall|x: Seq<char>|
            weekday_named(x) == Some(Weekday::Fri) ==> 3 <= x.len() <= "friday"@.len()
                && "friday"@.take(x.len() as int) == x,
{
    reveal_strlit("Friday");
    reveal_strlit("friday");
    reveal_strlit("fri");
    reveal_strlit("friday");
    assert(ascii_lowered("Friday"@) =~= "friday"@);
    assert("fri"@ =~= "friday"@.take(3));
    assert("friday"@ =~= "friday"@.take(6));
}

proof fn lemma_names_sat()
    ensures
        day_name_lower(Weekday::Sat) == "saturday"@,
        forall|x: Seq<char>|
            weekday_named(x) == Some(Weekday::Sat) ==> 3 <= x.len() <= "saturday"@.len()
                && "saturday"@.take(x.len() as int) == x,
{
    reveal_strlit("Saturday");
    reveal_strlit("saturday");
    reveal_strlit("sat");
    reveal_strlit("saturday");
    assert(ascii_lowered("Saturday"@) =~= "saturday"@);
    assert("sat"@ =~= "saturday"@.take(3));
    assert("saturday"@ =~= "saturday"@.take(8));
}

proof fn lemma_names_sun()
    ensures
        day_name_lower(Weekday::Sun) == "sunday"@,
        forall|x: Seq<char>|
            weekday_named(x) == Some(Weekday::Sun) ==> 3 <= x.len() <= "sunday"@.len()
                && "sunday"@.take(x.len() as int) == x,
{
    reveal_strlit("Sunday");
    reveal_strlit("sunday");
    reveal_strlit("sun");
    reveal_strlit("sunday");
    assert(ascii_lowered("Sunday"@) =~= "sunday"@);
    assert("sun"@ =~= "sunday"@.take(3));
    assert("sunday"@ =~= "sunday"@.take(6));
}

/// A week day is read from its English name, in small letters, and from the
/// name's first three letters; a word read as a week day is always the start,
/// three letters or more, of that day's name.
pub proof fn law_weekday_names(w: Weekday, x: Seq<char>)
    ensures
        weekday_named(day_name_lower(w)) == Some(w),
        weekday_named(day_name_lower(w).take(3)) == Some(w),
        weekday_named(x) == Some(w) ==> 3 <= x.len() <= day_name_lower(w).len()
            && day_name_lower(w).take(x.len() as int) == x,
{
    reveal_strlit("mon");
    reveal_strlit("monday");
    reveal_strlit("tue");
    reveal_strlit("tues");
    reveal_strlit("tuesday");
    reveal_strlit("wed");
    reveal_strlit("wednesday");
    reveal_strlit("thu");
    reveal_strlit("thur");
    reveal_strlit("thurs");
    reveal_strlit("thursday");
    reveal_strlit("fri");
    reveal_strlit("friday");
    reveal_strlit("sat");
    reveal_strlit("saturday");
    reveal_strlit("sun");
    reveal_strlit("sunday");
    assert("tue"@[0] != "mon"@[0]);
    assert("wed"@[0] != "mon"@[0]);
    assert("wed"@[0] != "tue"@[0]);
    assert("thu"@[0] != "mon"@[0]);
    assert("thu"@[1] != "tue"@[1]);
    assert("thu"@[0] != "wed"@[0]);
    assert("fri"@[0] != "mon"@[0]);
    assert("fri"@[0] != "tue"@[0]);
    assert("fri"@[0] != "wed"@[0]);
    assert("fri"@[0] != "thu"@[0]);
    assert("sat"@[0] != "mon"@[0]);
    assert("sat"@[0] != "tue"@[0]);
    assert("sat"@[0] != "wed"@[0]);
    assert("sat"@[0] != "thu"@[0]);
    assert("sat"@[0] != "fri"@[0]);
    assert("sun"@[0] != "mon"@[0]);
    assert("sun"@[0] != "tue"@[0]);
    assert("sun"@[0] != "wed"@[0]);
    assert("sun"@[0] != "thu"@[0]);
    assert("sun"@[0] != "fri"@[0]);
    assert("sun"@[1] != "sat"@[1]);
    match w {
        Weekday::Mon => {
            lemma_names_mon();
            reveal_strlit("mon");
            reveal_strlit("monday");
            assert("monday"@.take(3) =~= "mon"@);
            assert(day_name_lower(w) == "monday"@);
            assert(weekday_named("monday"@) == Some(Weekday::Mon));
            assert(weekday_named("mon"@) == Some(Weekday::Mon));
        },
        Weekday::Tue => {
            lemma_names_tue();
            reveal_strlit("tue");
            reveal_strlit("tuesday");
            assert("tuesday"@.take(3) =~= "tue"@);
            assert(day_name_lower(w) == "tuesday"@);
            assert(weekday_named("tuesday"@) == Some(Weekday::Tue));
            assert(weekday_named("tue"@) == Some(Weekday::Tue));
        },
        Weekday::Wed => {
            lemma_names_wed();
            reveal_strlit("wed");
            reveal_strlit("wednesday");
            assert("wednesday"@.take(3) =~= "wed"@);
            assert(day_name_lower(w) == "wednesday"@);
            assert(weekday_named("wednesday"@) == Some(Weekday::Wed));
            assert(weekday_named("wed"@) == Some(Weekday::Wed));
        },
        Weekday::Thu => {
            lemma_names_thu();
            reveal_strlit("thu");
            reveal_strlit("thursday");
            assert("thursday"@.take(3) =~= "thu"@);
            assert(day_name_lower(w) == "thursday"@);
            assert(weekday_named("thursday"@) == Some(Weekday::Thu));
            assert(weekday_named("thu"@) == Some(Weekday::Thu));
        },
        Weekday::Fri => {
            lemma_names_fri();
            reveal_strlit("fri");
            reveal_strlit("friday");
            assert("friday"@.take(3) =~= "fri"@);
            assert(day_name_lower(w) == "friday"@);
            assert(weekday_named("friday"@) == Some(Weekday::Fri));
            assert(weekday_named("fri"@) == Some(Weekday::Fri));
        },
        Weekday::Sat => {
            lemma_names_sat();
            reveal_strlit("sat");
            reveal_strlit("saturday");
            assert("saturday"@.take(3) =~= "sat"@);
            assert(day_name_lower(w) == "saturday"@);
            assert(weekday_named("saturday"@) == Some(Weekday::Sat));
            assert(weekday_named("sat"@) == Some(Weekday::Sat));
        },
        Weekday::Sun => {
            lemma_names_sun();
            reveal_strlit("sun");
            reveal_strlit("sunday");
            assert("sunday"@.take(3) =~= "sun"@);
            assert(day_name_lower(w) == "sunday"@);
            assert(weekday_named("sunday"@) == Some(Weekday::Sun));
            assert(weekday_named("sun"@) == Some(Weekday::Sun));
        },
    }
}


/// A daily schedule posts at its time on the first day, counted from the
/// local date of `after`, whose instant comes after `after`: each earlier day
/// from there gives an instant at or before `after`.
pub proof fn law_daily_first_day(time: TimeOfDay, zone: Seq<char>, after: UtcTimestamp, t: UtcTimestamp)
    ensures
        match zone_local_date(zone, after.secs as int, after.nanos as int) {
            Some(start) => next_after_outcome(Recurrence::Daily { time }, zone, after, Ok(t))
                ==> exists|n: nat|
                {
                    &&& #[trigger] days_after(start, n) is Some
                    &&& resolve_local(zone, days_after(start, n)->0, time) == Ok::<
                        UtcTimestamp,
                        RecurrenceError,
                    >(t)
                    &&& !not_later(t, after)
                    &&& forall|m: nat|
                        m < n ==> (#[trigger] days_after(start, m) matches Some(d) && (resolve_local(
                            zone,
                            d,
                            time,
                        ) matches Ok(u) && not_later(u, after)))
                },
            None => true,
        },
{
    if let Some(start) = zone_local_date(zone, after.secs as int, after.nanos as int) {
        if next_after_outcome(Recurrence::Daily { time }, zone, after, Ok(t)) {
            let n = choose|n: nat|
                {
                    &&& daily_misses(zone, time, after, start, n)
                    &&& Ok::<UtcTimestamp, RecurrenceError>(t) == #[trigger] daily_candidate(
                        zone,
                        time,
                        start,
                        n,
                    )
                    &&& ends_search(Ok::<UtcTimestamp, RecurrenceError>(t), after)
                };
            assert forall|m: nat| m < n implies (#[trigger] days_after(start, m) matches Some(d) && (
            resolve_local(zone, d, time) matches Ok(u) && not_later(u, after))) by {
                assert(!ends_search(daily_candidate(zone, time, start, m), after));
            }
            assert(days_after(start, n) is Some);
        }
    }
}

/// A monthly schedule posts at its time on its day of the month, or on the
/// month's last day when the month is shorter, in the month of the local
/// date of `after` or a later one.
pub proof fn law_monthly_day(
    day: u32,
    time: TimeOfDay,
    zone: Seq<char>,
    after: UtcTimestamp,
    t: UtcTimestamp,
)
    requires
        1 <= day <= 31,
    ensures
        match zone_local_date(zone, after.secs as int, after.nanos as int) {
            Some(start) => next_after_outcome(Recurrence::Monthly { day, time }, zone, after, Ok(t))
                ==> exists|d: Date|
                {
                    &&& valid_date(d)
                    &&& #[trigger] resolve_local(zone, d, time) == Ok::<
                        UtcTimestamp,
                        RecurrenceError,
                    >(t)
                    &&& d.day == (if day <= days_in_month(d.year as int, d.month as int) {
                        day as int
                    } else {
                        days_in_month(d.year as int, d.month as int)
                    })
                    &&& d.year * 12 + d.month >= start.year * 12 + start.month
                    &&& !not_later(t, after)
                },
            None => true,
        },
{
    if let Some(start) = zone_local_date(zone, after.secs as int, after.nanos as int) {
        if next_after_outcome(Recurrence::Monthly { day, time }, zone, after, Ok(t)) {
            let k = choose|k: nat|
                {
                    &&& monthly_misses(
                        zone,
                        day,
                        time,
                        after,
                        start.year as int,
                        start.month as int,
                        k,
                    )
                    &&& Ok::<UtcTimestamp, RecurrenceError>(t) == #[trigger] monthly_candidate(
                        zone,
                        day,
                        time,
                        start.year as int,
                        start.month as int,
                        k,
                    )
                    &&& ends_search(Ok::<UtcTimestamp, RecurrenceError>(t), after)
                };
            let (y, m) = month_after(start.year as int, start.month as int, k);
            let d = clamped_date(y, m, day as int)->0;
            assert(resolve_local(zone, d, time) == Ok::<UtcTimestamp, RecurrenceError>(t));
            lemma_month_after_order(start.year as int, start.month as int, k);
        }
    }
}

proof fn lemma_month_after_order(year: int, month: int, k: nat)
    ensures
        month_after(year, month, k).0 * 12 + month_after(year, month, k).1 == year * 12 + month
            + k,
{
    let q = (month - 1 + k) / 12;
    let r = (month - 1 + k) % 12;
    assert(month - 1 + k == 12 * q + r);
}

} // verus!
