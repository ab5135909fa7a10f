//! The conversions and keys the store uses around its database rows.
use vstd::prelude::*;

use crate::calendar::{in_calendar_range, known_zone, zone_is_known, UtcTimestamp};
use crate::models::{
    DueEasterEggTaunt, EasterEggSettings, Poll, PollNotification, RecurringSeries, Vote,
};
use crate::text::{
    append_str, join_strings, join_with, lowercase, strings_view, to_lowercase, trim, trim_string,
};
use crate::validation::str_to_string;

verus! {

/// Why a value could not be stored or read back.
#[derive(Clone, Copy, Debug, PartialEq, Eq, Structural)]
pub enum StorageError {
    IdTooLarge,
    NegativeId,
    MinuteOutOfRange,
}

impl StorageError {
    pub open spec fn message_text(self) -> Seq<char> {
        match self {
            StorageError::IdTooLarge => "Discord ID did not fit in SQLite integer"@,
            StorageError::NegativeId => "stored Discord ID was negative"@,
            StorageError::MinuteOutOfRange => "stored minute value did not fit in u16"@,
        }
    }

    pub fn message(&self) -> (m: String)
        ensures
            m@ == self.message_text(),
    {
        let s = match self {
            StorageError::IdTooLarge => "Discord ID did not fit in SQLite integer",
            StorageError::NegativeId => "stored Discord ID was negative",
            StorageError::MinuteOutOfRange => "stored minute value did not fit in u16",
        };
        crate::validation::str_to_string(s)
    }
}

/// A Discord id as an SQLite integer.
pub fn to_i64(value: u64) -> (r: Result<i64, StorageError>)
    ensures
        value <= i64::MAX ==> r == Ok::<i64, StorageError>(value as i64),
        value > i64::MAX ==> r == Err::<i64, StorageError>(StorageError::IdTooLarge),
{
    if value <= i64::MAX as u64 {
        Ok(value as i64)
    } else {
        Err(StorageError::IdTooLarge)
    }
}

/// An SQLite integer as a Discord id.
pub fn to_u64(value: i64) -> (r: Result<u64, StorageError>)
    ensures
        value >= 0 ==> r == Ok::<u64, StorageError>(value as u64),
        value < 0 ==> r == Err::<u64, StorageError>(StorageError::NegativeId),
{
    if value >= 0 {
        Ok(value as u64)
    } else {
        Err(StorageError::NegativeId)
    }
}

/// An SQLite integer as a minute of the day.
pub fn to_u16(value: i64) -> (r: Result<u16, StorageError>)
    ensures
        0 <= value <= u16::MAX ==> r == Ok::<u16, StorageError>(value as u16),
        !(0 <= value <= u16::MAX) ==> r == Err::<u16, StorageError>(
            StorageError::MinuteOutOfRange,
        ),
{
    if 0 <= value && value <= u16::MAX as i64 {
        Ok(value as u16)
    } else {
        Err(StorageError::MinuteOutOfRange)
    }
}

/// Each choice trimmed and lowercased, one a line.
pub open spec fn normalized_choices(choices: Seq<Seq<char>>) -> Seq<char> {
    join_with(choices.map_values(|c: Seq<char>| lowercase(trim(c))), "\n"@)
}

/// The key under which a set of choices is remembered: its choices trimmed
/// and lowercased, one a line.
pub fn normalize_choices(choices: &Vec<String>) -> (r: String)
    ensures
        r@ == normalized_choices(strings_view(choices@)),
{
    let mut parts: Vec<String> = Vec::new();
    let mut i: usize = 0;
    while i < choices.len()
        invariant
            i <= choices@.len(),
            parts@.len() == i,
            forall|k: int| 0 <= k < i ==> (#[trigger] parts@[k])@ == lowercase(trim(choices@[k]@)),
        decreases choices@.len() - i,
    {
        let t = trim_string(choices[i].as_str());
        parts.push(to_lowercase(t.as_str()));
        i += 1;
    }
    assert(strings_view(parts@) =~= strings_view(choices@).map_values(
        |c: Seq<char>| lowercase(trim(c)),
    ));
    join_strings(&parts, "\n")
}

/// How a remembered set of choices is shown: its choices, comma-separated.
pub fn choice_display_text(choices: &Vec<String>) -> (r: String)
    ensures
        r@ == join_with(strings_view(choices@), ", "@),
{
    join_strings(choices, ", ")
}

/// The `LIKE` pattern that finds remembered choice sets holding what was
/// typed: the typed text trimmed and lowercased, between `%` signs.
pub fn choice_history_pattern(partial: &str) -> (r: String)
    ensures
        r@ == "%"@ + lowercase(trim(partial@)) + "%"@,
{
    let t = trim_string(partial);
    let lowered = to_lowercase(t.as_str());
    let mut r = String::new();
    append_str(&mut r, "%");
    append_str(&mut r, lowered.as_str());
    append_str(&mut r, "%");
    r
}

// ---------------------------------------------------------------------------
// JSON and timestamp columns
// ---------------------------------------------------------------------------

/// What `serde_json::to_string` writes for a list of strings.
pub uninterp spec fn strings_json(items: Seq<Seq<char>>) -> Seq<char>;

/// What `serde_json::from_str::<Vec<String>>` reads from a text; `None`
/// when it refuses it.
pub uninterp spec fn json_strings(text: Seq<char>) -> Option<Seq<Seq<char>>>;

/// What `serde_json::to_string` writes for a list of ids.
pub uninterp spec fn ids_json(ids: Seq<u64>) -> Seq<char>;

/// What `serde_json::from_str::<Vec<u64>>` reads from a text; `None` when
/// it refuses it.
pub uninterp spec fn json_ids(text: Seq<char>) -> Option<Seq<u64>>;

/// What `DateTime::<Utc>::to_rfc3339` writes for an instant.
pub uninterp spec fn rfc3339_text(secs: int, nanos: int) -> Seq<char>;

/// The instant that `DateTime::parse_from_rfc3339` reads from a text;
/// `None` when it refuses it.
pub uninterp spec fn rfc3339_instant(text: Seq<char>) -> Option<UtcTimestamp>;

/// `serde_json::to_string` on a list of strings. Serializing strings into a
/// sequence cannot fail, and `serde_json::from_str` reads the text back as
/// the same strings: JSON string escapes keep every character.
#[verifier::external_body]
fn write_strings_json(items: &Vec<String>) -> (r: String)
    ensures
        r@ == strings_json(strings_view(items@)),
        json_strings(r@) == Some(strings_view(items@)),
{
    serde_json::to_string(items).unwrap()
}

/// `serde_json::from_str::<Vec<String>>`, with the error's message.
#[verifier::external_body]
fn read_strings_json(text: &str) -> (r: Result<Vec<String>, String>)
    ensures
        match r {
            Ok(v) => json_strings(text@) == Some(strings_view(v@)),
            Err(_) => json_strings(text@) is None,
        },
{
    serde_json::from_str::<Vec<String>>(text).map_err(|e| e.to_string())
}

/// `serde_json::to_string` on a list of ids. Serializing integers into a
/// sequence cannot fail, and `serde_json::from_str` reads the numbers back.
#[verifier::external_body]
fn write_ids_json(ids: &Vec<u64>) -> (r: String)
    ensures
        r@ == ids_json(ids@),
        json_ids(r@) == Some(ids@),
{
    serde_json::to_string(ids).unwrap()
}

/// `serde_json::from_str::<Vec<u64>>`, with the error's message.
#[verifier::external_body]
fn read_ids_json(text: &str) -> (r: Result<Vec<u64>, String>)
    ensures
        match r {
            Ok(v) => json_ids(text@) == Some(v@),
            Err(_) => json_ids(text@) is None,
        },
{
    serde_json::from_str::<Vec<u64>>(text).map_err(|e| e.to_string())
}

/// The first second of the year 0 and the last second of the year 9999:
/// RFC 3339 writes the years between with four digits.
pub const FOUR_DIGIT_YEARS_FIRST_SECOND: i64 = -62167219200;

pub const FOUR_DIGIT_YEARS_LAST_SECOND: i64 = 253402300799;

pub open spec fn four_digit_year(t: UtcTimestamp) -> bool {
    FOUR_DIGIT_YEARS_FIRST_SECOND <= t.secs <= FOUR_DIGIT_YEARS_LAST_SECOND
}

/// `DateTime::from_timestamp` and `DateTime::to_rfc3339`. Every fraction of
/// the second is written, so for a year written with four digits
/// `parse_from_rfc3339` reads the same instant back.
#[verifier::external_body]
fn write_rfc3339(t: UtcTimestamp) -> (r: String)
    requires
        in_calendar_range(t),
    ensures
        r@ == rfc3339_text(t.secs as int, t.nanos as int),
        four_digit_year(t) ==> rfc3339_instant(r@) == Some(t),
{
    chrono::DateTime::from_timestamp(t.secs, t.nanos).unwrap().to_rfc3339()
}

/// `DateTime::parse_from_rfc3339`, as seconds and nanoseconds since the
/// epoch, with the error's message.
#[verifier::external_body]
fn read_rfc3339(text: &str) -> (r: Result<UtcTimestamp, String>)
    ensures
        match r {
            Ok(t) => rfc3339_instant(text@) == Some(t),
            Err(_) => rfc3339_instant(text@) is None,
        },
{
    match chrono::DateTime::parse_from_rfc3339(text) {
        Ok(t) => Ok(UtcTimestamp { secs: t.timestamp(), nanos: t.timestamp_subsec_nanos() }),
        Err(e) => Err(e.to_string()),
    }
}

/// An instant as the store writes it.
pub fn timestamp_text(t: UtcTimestamp) -> (r: String)
    requires
        in_calendar_range(t),
    ensures
        r@ == rfc3339_text(t.secs as int, t.nanos as int),
        four_digit_year(t) ==> rfc3339_instant(r@) == Some(t),
{
    write_rfc3339(t)
}

/// Why a stored row could not be read back.
#[derive(Debug)]
pub enum RowError {
    Value(StorageError),
    /// A JSON column was refused, with `serde_json`'s message.
    Json(String),
    /// A timestamp column was refused, with `chrono`'s message.
    Timestamp(String),
}

impl RowError {
    pub fn message(&self) -> (m: String)
        ensures
            match self {
                RowError::Value(e) => m@ == e.message_text(),
                RowError::Json(t) => m@ == t@,
                RowError::Timestamp(t) => m@ == t@,
            },
    {
        match self {
            RowError::Value(e) => e.message(),
            RowError::Json(t) => t.clone(),
            RowError::Timestamp(t) => t.clone(),
        }
    }
}

pub open spec fn id_fits(id: u64) -> bool {
    id <= i64::MAX
}

pub open spec fn opt_id_column(id: Option<u64>) -> Option<i64> {
    match id {
        Some(v) => Some(v as i64),
        None => None,
    }
}

pub open spec fn opt_id_value(id: Option<i64>) -> Option<u64> {
    match id {
        Some(v) => Some(v as u64),
        None => None,
    }
}

fn opt_to_i64(id: Option<u64>) -> (r: Result<Option<i64>, StorageError>)
    ensures
        match id {
            Some(v) => if id_fits(v) {
                r == Ok::<Option<i64>, StorageError>(Some(v as i64))
            } else {
                r == Err::<Option<i64>, StorageError>(StorageError::IdTooLarge)
            },
            None => r == Ok::<Option<i64>, StorageError>(None),
        },
{
    match id {
        Some(v) => match to_i64(v) {
            Ok(x) => Ok(Some(x)),
            Err(e) => Err(e),
        },
        None => Ok(None),
    }
}

fn opt_to_u64(id: Option<i64>) -> (r: Result<Option<u64>, StorageError>)
    ensures
        match id {
            Some(v) => if v >= 0 {
                r == Ok::<Option<u64>, StorageError>(Some(v as u64))
            } else {
                r == Err::<Option<u64>, StorageError>(StorageError::NegativeId)
            },
            None => r == Ok::<Option<u64>, StorageError>(None),
        },
{
    match id {
        Some(v) => match to_u64(v) {
            Ok(x) => Ok(Some(x)),
            Err(e) => Err(e),
        },
        None => Ok(None),
    }
}

// ---------------------------------------------------------------------------
// Polls
// ---------------------------------------------------------------------------

/// A poll's columns in the `polls` table.
#[derive(Debug)]
pub struct PollRow {
    pub id: String,
    pub title: String,
    pub description: Option<String>,
    pub when_text: Option<String>,
    pub location_text: Option<String>,
    pub choices_json: String,
    pub channel_id: i64,
    pub message_id: Option<i64>,
    pub recurring_id: Option<String>,
    pub created_by: i64,
    pub created_by_name: Option<String>,
    pub created_at: String,
}

/// The ids of a poll that the store keeps as SQLite integers fit in them.
pub open spec fn poll_ids_fit(p: Poll) -> bool {
    &&& id_fits(p.channel_id)
    &&& (p.message_id matches Some(m) ==> id_fits(m))
    &&& id_fits(p.created_by)
}

/// `row` holds the poll `p`, as `poll_row` writes it.
pub open spec fn poll_written_as(p: Poll, row: PollRow) -> bool {
    &&& row.id == p.id
    &&& row.title == p.title
    &&& row.description == p.description
    &&& row.when_text == p.when
    &&& row.location_text == p.location
    &&& row.choices_json@ == strings_json(strings_view(p.choices@))
    &&& row.channel_id == p.channel_id as i64
    &&& row.message_id == opt_id_column(p.message_id)
    &&& row.recurring_id == p.recurring_id
    &&& row.created_by == p.created_by as i64
    &&& row.created_by_name == p.created_by_name
    &&& row.created_at@ == rfc3339_text(p.created_at.secs as int, p.created_at.nanos as int)
    &&& json_strings(row.choices_json@) == Some(strings_view(p.choices@))
    &&& four_digit_year(p.created_at) ==> rfc3339_instant(row.created_at@) == Some(p.created_at)
}

/// A row reads back as a poll: its choices are JSON, its ids are not
/// negative and its creation time is RFC 3339.
pub open spec fn poll_row_readable(row: PollRow) -> bool {
    &&& json_strings(row.choices_json@) is Some
    &&& row.channel_id >= 0
    &&& (row.message_id matches Some(m) ==> m >= 0)
    &&& row.created_by >= 0
    &&& rfc3339_instant(row.created_at@) is Some
}

/// The poll `p` is what `row` reads back as.
pub open spec fn poll_reads_as(row: PollRow, p: Poll) -> bool {
    &&& p.id == row.id
    &&& p.title == row.title
    &&& p.description == row.description
    &&& p.when == row.when_text
    &&& p.location == row.location_text
    &&& json_strings(row.choices_json@) == Some(strings_view(p.choices@))
    &&& p.channel_id == row.channel_id as u64
    &&& p.message_id == opt_id_value(row.message_id)
    &&& p.recurring_id == row.recurring_id
    &&& p.created_by == row.created_by as u64
    &&& p.created_by_name == row.created_by_name
    &&& rfc3339_instant(row.created_at@) == Some(p.created_at)
}

/// The row a poll is stored as; an id too large for SQLite is refused.
pub fn poll_row(poll: &Poll) -> (r: Result<PollRow, StorageError>)
    requires
        in_calendar_range(poll.created_at),
    ensures
        poll_ids_fit(*poll) <==> r is Ok,
        r matches Err(e) ==> e == StorageError::IdTooLarge,
        r matches Ok(row) ==> poll_written_as(*poll, row),
{
    let choices_json = write_strings_json(&poll.choices);
    let channel_id = to_i64(poll.channel_id)?;
    let message_id = opt_to_i64(poll.message_id)?;
    let created_by = to_i64(poll.created_by)?;
    Ok(PollRow {
        id: poll.id.clone(),
        title: poll.title.clone(),
        description: poll.description.clone(),
        when_text: poll.when.clone(),
        location_text: poll.location.clone(),
        choices_json,
        channel_id,
        message_id,
        recurring_id: poll.recurring_id.clone(),
        created_by,
        created_by_name: poll.created_by_name.clone(),
        created_at: write_rfc3339(poll.created_at),
    })
}

/// The poll a row holds. The first problem met, in the order choices, ids,
/// creation time, is the error.
pub fn poll_from_row(row: PollRow) -> (r: Result<Poll, RowError>)
    ensures
        poll_row_readable(row) <==> r is Ok,
        r matches Ok(p) ==> poll_reads_as(row, p),
        r matches Err(e) ==> match json_strings(row.choices_json@) {
            None => e is Json,
            Some(_) => if row.channel_id < 0 || (row.message_id matches Some(m) && m < 0)
                || row.created_by < 0 {
                e matches RowError::Value(StorageError::NegativeId)
            } else {
                e is Timestamp
            },
        },
{
    let choices = match read_strings_json(row.choices_json.as_str()) {
        Ok(c) => c,
        Err(m) => return Err(RowError::Json(m)),
    };
    let channel_id = match to_u64(row.channel_id) {
        Ok(v) => v,
        Err(e) => return Err(RowError::Value(e)),
    };
    let message_id = match opt_to_u64(row.message_id) {
        Ok(v) => v,
        Err(e) => return Err(RowError::Value(e)),
    };
    let created_by = match to_u64(row.created_by) {
        Ok(v) => v,
        Err(e) => return Err(RowError::Value(e)),
    };
    let created_at = match read_rfc3339(row.created_at.as_str()) {
        Ok(t) => t,
        Err(m) => return Err(RowError::Timestamp(m)),
    };
    Ok(Poll {
        id: row.id,
        title: row.title,
        description: row.description,
        when: row.when_text,
        location: row.location_text,
        choices,
        channel_id,
        message_id,
        recurring_id: row.recurring_id,
        created_by,
        created_by_name: row.created_by_name,
        created_at,
    })
}

/// A poll written as a row by `poll_row` reads back, through
/// `poll_from_row`, as the same poll, whenever its creation year is written
/// with four digits.
pub proof fn law_poll_round_trip(p: Poll, row: PollRow, q: Poll)
    requires
        poll_ids_fit(p),
        poll_written_as(p, row),
        four_digit_year(p.created_at),
        poll_reads_as(row, q),
    ensures
        poll_row_readable(row),
        q.id == p.id,
        q.title == p.title,
        q.description == p.description,
        q.when == p.when,
        q.location == p.location,
        strings_view(q.choices@) == strings_view(p.choices@),
        q.channel_id == p.channel_id,
        q.message_id == p.message_id,
        q.recurring_id == p.recurring_id,
        q.created_by == p.created_by,
        q.created_by_name == p.created_by_name,
        q.created_at == p.created_at,
{
}

// ---------------------------------------------------------------------------
// Recurring series
// ---------------------------------------------------------------------------

/// A series' columns in the `recurring_series` table.
#[derive(Debug)]
pub struct SeriesRow {
    pub id: String,
    pub title: String,
    pub description: Option<String>,
    pub schedule: String,
    pub when_text: String,
    pub location_text: Option<String>,
    pub timezone: String,
    pub choices_json: String,
    pub notification_text: Option<String>,
    pub notification_user_ids_json: String,
    pub notification_role_ids_json: String,
    pub channel_id: i64,
    pub created_by: i64,
    pub created_by_name: Option<String>,
    pub next_post_at: String,
}

pub open spec fn series_ids_fit(s: RecurringSeries) -> bool {
    id_fits(s.channel_id) && id_fits(s.created_by)
}

/// The ids a notification column holds: the notification's, or none.
pub open spec fn notified_users(n: Option<PollNotification>) -> Seq<u64> {
    match n {
        Some(x) => x.user_ids@,
        None => Seq::empty(),
    }
}

pub open spec fn notified_roles(n: Option<PollNotification>) -> Seq<u64> {
    match n {
        Some(x) => x.role_ids@,
        None => Seq::empty(),
    }
}

/// `row` holds the series `s`, as `series_row` writes it.
pub open spec fn series_written_as(s: RecurringSeries, row: SeriesRow) -> bool {
    &&& row.id == s.id
    &&& row.title == s.title
    &&& row.description == s.description
    &&& row.schedule == s.schedule
    &&& row.when_text == s.when
    &&& row.location_text == s.location
    &&& row.timezone == s.timezone
    &&& row.choices_json@ == strings_json(strings_view(s.choices@))
    &&& json_strings(row.choices_json@) == Some(strings_view(s.choices@))
    &&& (match s.notification {
        Some(n) => row.notification_text == Some(n.content),
        None => row.notification_text is None,
    })
    &&& row.notification_user_ids_json@ == ids_json(notified_users(s.notification))
    &&& json_ids(row.notification_user_ids_json@) == Some(notified_users(s.notification))
    &&& row.notification_role_ids_json@ == ids_json(notified_roles(s.notification))
    &&& json_ids(row.notification_role_ids_json@) == Some(notified_roles(s.notification))
    &&& row.channel_id == s.channel_id as i64
    &&& row.created_by == s.created_by as i64
    &&& row.created_by_name == s.created_by_name
    &&& row.next_post_at@ == rfc3339_text(s.next_post_at.secs as int, s.next_post_at.nanos as int)
    &&& four_digit_year(s.next_post_at) ==> rfc3339_instant(row.next_post_at@) == Some(
        s.next_post_at,
    )
}

/// A row reads back as a series: its choices are JSON, and so are the
/// notification's ids when it has a notification; its ids are not negative
/// and its next post time is RFC 3339.
pub open spec fn series_row_readable(row: SeriesRow) -> bool {
    &&& json_strings(row.choices_json@) is Some
    &&& (row.notification_text is Some ==> json_ids(row.notification_user_ids_json@) is Some
        && json_ids(row.notification_role_ids_json@) is Some)
    &&& row.channel_id >= 0
    &&& row.created_by >= 0
    &&& rfc3339_instant(row.next_post_at@) is Some
}

/// The zone a stored name is read as: the name when `chrono-tz` knows it,
/// else `UTC`.
pub open spec fn stored_zone(name: Seq<char>) -> Seq<char> {
    if known_zone(name) {
        name
    } else {
        "UTC"@
    }
}

/// The series `s` is what `row` reads back as.
pub open spec fn series_reads_as(row: SeriesRow, s: RecurringSeries) -> bool {
    &&& s.id == row.id
    &&& s.title == row.title
    &&& s.description == row.description
    &&& s.schedule == row.schedule
    &&& s.when == row.when_text
    &&& s.location == row.location_text
    &&& s.timezone@ == stored_zone(row.timezone@)
    &&& json_strings(row.choices_json@) == Some(strings_view(s.choices@))
    &&& (match row.notification_text {
        None => s.notification is None,
        Some(content) => s.notification matches Some(n) && n.content == content && json_ids(
            row.notification_user_ids_json@,
        ) == Some(n.user_ids@) && json_ids(row.notification_role_ids_json@) == Some(
            n.role_ids@,
        ),
    })
    &&& s.channel_id == row.channel_id as u64
    &&& s.created_by == row.created_by as u64
    &&& s.created_by_name == row.created_by_name
    &&& rfc3339_instant(row.next_post_at@) == Some(s.next_post_at)
}

/// The row a series is stored as; an id too large for SQLite is refused.
pub fn series_row(series: &RecurringSeries) -> (r: Result<SeriesRow, StorageError>)
    requires
        in_calendar_range(series.next_post_at),
    ensures
        series_ids_fit(*series) <==> r is Ok,
        r matches Err(e) ==> e == StorageError::IdTooLarge,
        r matches Ok(row) ==> series_written_as(*series, row),
{
    let choices_json = write_strings_json(&series.choices);
    let empty: Vec<u64> = Vec::new();
    let (notification_text, users, roles) = match &series.notification {
        Some(n) => (Some(n.content.clone()), write_ids_json(&n.user_ids), write_ids_json(&n.role_ids)),
        None => (None, write_ids_json(&empty), write_ids_json(&empty)),
    };
    proof {
        assert(empty@ =~= Seq::<u64>::empty());
    }
    let channel_id = to_i64(series.channel_id)?;
    let created_by = to_i64(series.created_by)?;
    Ok(SeriesRow {
        id: series.id.clone(),
        title: series.title.clone(),
        description: series.description.clone(),
        schedule: series.schedule.clone(),
        when_text: series.when.clone(),
        location_text: series.location.clone(),
        timezone: series.timezone.clone(),
        choices_json,
        notification_text,
        notification_user_ids_json: users,
        notification_role_ids_json: roles,
        channel_id,
        created_by,
        created_by_name: series.created_by_name.clone(),
        next_post_at: write_rfc3339(series.next_post_at),
    })
}

/// The zone a stored name is read as.
fn zone_of_stored_name(name: String) -> (r: String)
    ensures
        r@ == stored_zone(name@),
{
    if zone_is_known(name.as_str()) {
        name
    } else {
        str_to_string("UTC")
    }
}

/// The notification that the notification columns hold: none when there is
/// no text; else the text and the ids read from JSON, users first.
fn notification_from_columns(text: Option<String>, users_json: &str, roles_json: &str) -> (r:
    Result<Option<PollNotification>, RowError>)
    ensures
        match text {
            None => r matches Ok(None),
            Some(content) => match (json_ids(users_json@), json_ids(roles_json@)) {
                (Some(u), Some(g)) => r matches Ok(Some(n)) && n.content == content && n.user_ids@
                    == u && n.role_ids@ == g,
                _ => r matches Err(RowError::Json(_)),
            },
        },
{
    let content = match text {
        Some(c) => c,
        None => return Ok(None),
    };
    let user_ids = match read_ids_json(users_json) {
        Ok(v) => v,
        Err(m) => return Err(RowError::Json(m)),
    };
    let role_ids = match read_ids_json(roles_json) {
        Ok(v) => v,
        Err(m) => return Err(RowError::Json(m)),
    };
    Ok(Some(PollNotification { content, user_ids, role_ids }))
}

/// The series a row holds, its zone read as `UTC` when the stored name is
/// unknown. The first problem met, in the order choices, notification ids,
/// ids, next post time, is the error.
pub fn series_from_row(row: SeriesRow) -> (r: Result<RecurringSeries, RowError>)
    ensures
        series_row_readable(row) <==> r is Ok,
        r matches Ok(s) ==> series_reads_as(row, s),
        r matches Err(e) ==> if json_strings(row.choices_json@) is None || (
        row.notification_text is Some && (json_ids(row.notification_user_ids_json@) is None
            || json_ids(row.notification_role_ids_json@) is None)) {
            e is Json
        } else if row.channel_id < 0 || row.created_by < 0 {
            e matches RowError::Value(StorageError::NegativeId)
        } else {
            e is Timestamp
        },
{
    let timezone = zone_of_stored_name(row.timezone);
    let choices = match read_strings_json(row.choices_json.as_str()) {
        Ok(c) => c,
        Err(m) => return Err(RowError::Json(m)),
    };
    let notification = notification_from_columns(
        row.notification_text,
        row.notification_user_ids_json.as_str(),
        row.notification_role_ids_json.as_str(),
    )?;
    let channel_id = match to_u64(row.channel_id) {
        Ok(v) => v,
        Err(e) => return Err(RowError::Value(e)),
    };
    let created_by = match to_u64(row.created_by) {
        Ok(v) => v,
        Err(e) => return Err(RowError::Value(e)),
    };
    let next_post_at = match read_rfc3339(row.next_post_at.as_str()) {
        Ok(t) => t,
        Err(m) => return Err(RowError::Timestamp(m)),
    };
    Ok(RecurringSeries {
        id: row.id,
        title: row.title,
        description: row.description,
        schedule: row.schedule,
        when: row.when_text,
        location: row.location_text,
        timezone,
        choices,
        notification,
        channel_id,
        created_by,
        created_by_name: row.created_by_name,
        next_post_at,
    })
}

/// A series written as a row by `series_row` reads back, through
/// `series_from_row`, as the same series, whenever its zone is one that
/// `chrono-tz` knows and its next post's year is written with four digits.
pub proof fn law_series_round_trip(s: RecurringSeries, row: SeriesRow, q: RecurringSeries)
    requires
        series_ids_fit(s),
        series_written_as(s, row),
        known_zone(s.timezone@),
        four_digit_year(s.next_post_at),
        series_reads_as(row, q),
    ensures
        series_row_readable(row),
        q.id == s.id,
        q.title == s.title,
        q.description == s.description,
        q.schedule == s.schedule,
        q.when == s.when,
        q.location == s.location,
        q.timezone@ == s.timezone@,
        strings_view(q.choices@) == strings_view(s.choices@),
        q.notification is Some <==> s.notification is Some,
        q.notification matches Some(n) ==> {
            let m = s.notification->0;
            n.content == m.content && n.user_ids@ == m.user_ids@ && n.role_ids@ == m.role_ids@
        },
        q.channel_id == s.channel_id,
        q.created_by == s.created_by,
        q.created_by_name == s.created_by_name,
        q.next_post_at == s.next_post_at,
{
}

// ---------------------------------------------------------------------------
// Easter egg rows
// ---------------------------------------------------------------------------

/// The easter egg settings' columns.
#[derive(Debug)]
pub struct SettingsRow {
    pub enabled: bool,
    pub target_user_id: i64,
    pub channel_id: i64,
    pub window_start_minute: i64,
    pub window_end_minute: i64,
    pub updated_by: i64,
}

pub open spec fn settings_ids_fit(s: EasterEggSettings) -> bool {
    id_fits(s.target_user_id) && id_fits(s.channel_id) && id_fits(s.updated_by)
}

/// The row the settings are stored as; an id too large for SQLite is
/// refused.
pub fn settings_row(settings: &EasterEggSettings) -> (r: Result<SettingsRow, StorageError>)
    ensures
        settings_ids_fit(*settings) <==> r is Ok,
        r matches Err(e) ==> e == StorageError::IdTooLarge,
        r matches Ok(row) ==> row.enabled == settings.enabled && row.target_user_id
            == settings.target_user_id as i64 && row.channel_id == settings.channel_id as i64
            && row.window_start_minute == settings.window_start_minute as i64
            && row.window_end_minute == settings.window_end_minute as i64 && row.updated_by
            == settings.updated_by as i64,
{
    let target_user_id = to_i64(settings.target_user_id)?;
    let channel_id = to_i64(settings.channel_id)?;
    let updated_by = to_i64(settings.updated_by)?;
    Ok(SettingsRow {
        enabled: settings.enabled,
        target_user_id,
        channel_id,
        window_start_minute: settings.window_start_minute as i64,
        window_end_minute: settings.window_end_minute as i64,
        updated_by,
    })
}

pub open spec fn minute_fits(v: i64) -> bool {
    0 <= v <= u16::MAX
}

/// The settings a row holds; the first problem met, in the order target,
/// channel, window start, window end, editor, is the error.
pub fn settings_from_row(row: &SettingsRow) -> (r: Result<EasterEggSettings, StorageError>)
    ensures
        (row.target_user_id >= 0 && row.channel_id >= 0 && minute_fits(row.window_start_minute)
            && minute_fits(row.window_end_minute) && row.updated_by >= 0) <==> r is Ok,
        r matches Ok(s) ==> s.enabled == row.enabled && s.target_user_id
            == row.target_user_id as u64 && s.channel_id == row.channel_id as u64
            && s.window_start_minute == row.window_start_minute as u16 && s.window_end_minute
            == row.window_end_minute as u16 && s.updated_by == row.updated_by as u64,
        r matches Err(e) ==> if row.target_user_id < 0 || row.channel_id < 0 {
            e == StorageError::NegativeId
        } else if !minute_fits(row.window_start_minute) || !minute_fits(row.window_end_minute) {
            e == StorageError::MinuteOutOfRange
        } else {
            e == StorageError::NegativeId
        },
{
    let target_user_id = to_u64(row.target_user_id)?;
    let channel_id = to_u64(row.channel_id)?;
    let window_start_minute = to_u16(row.window_start_minute)?;
    let window_end_minute = to_u16(row.window_end_minute)?;
    let updated_by = to_u64(row.updated_by)?;
    Ok(EasterEggSettings {
        enabled: row.enabled,
        target_user_id,
        channel_id,
        window_start_minute,
        window_end_minute,
        updated_by,
    })
}

/// Settings stored as a row read back as the same settings.
pub proof fn law_settings_round_trip(s: EasterEggSettings, row: SettingsRow)
    requires
        settings_ids_fit(s),
        row.enabled == s.enabled,
        row.target_user_id == s.target_user_id as i64,
        row.channel_id == s.channel_id as i64,
        row.window_start_minute == s.window_start_minute as i64,
        row.window_end_minute == s.window_end_minute as i64,
        row.updated_by == s.updated_by as i64,
    ensures
        row.target_user_id >= 0 && row.channel_id >= 0 && minute_fits(row.window_start_minute)
            && minute_fits(row.window_end_minute) && row.updated_by >= 0,
        row.target_user_id as u64 == s.target_user_id,
        row.channel_id as u64 == s.channel_id,
        row.window_start_minute as u16 == s.window_start_minute,
        row.window_end_minute as u16 == s.window_end_minute,
        row.updated_by as u64 == s.updated_by,
{
}

/// The vote a `responses` row holds.
pub fn vote_from_row(user_id: i64, display_name: Option<String>, choice: String) -> (r: Result<
    Vote,
    StorageError,
>)
    ensures
        user_id >= 0 ==> (r matches Ok(v) && v.user_id == user_id as u64 && v.display_name
            == display_name && v.choice == choice),
        user_id < 0 ==> r == Err::<Vote, StorageError>(StorageError::NegativeId),
{
    let user_id = to_u64(user_id)?;
    Ok(Vote { user_id, display_name, choice })
}

/// The taunt a daily run row holds.
pub fn taunt_from_row(run_date: String, target_user_id: i64, channel_id: i64, message: String) -> (r:
    Result<DueEasterEggTaunt, StorageError>)
    ensures
        (target_user_id >= 0 && channel_id >= 0) ==> (r matches Ok(t) && t.run_date == run_date
            && t.target_user_id == target_user_id as u64 && t.channel_id == channel_id as u64
            && t.message == message),
        !(target_user_id >= 0 && channel_id >= 0) ==> r == Err::<DueEasterEggTaunt, StorageError>(
            StorageError::NegativeId,
        ),
{
    let target_user_id = to_u64(target_user_id)?;
    let channel_id = to_u64(channel_id)?;
    Ok(DueEasterEggTaunt { run_date, target_user_id, channel_id, message })
}

/// The columns a set of choices is remembered under.
#[derive(Debug)]
pub struct ChoiceHistoryRow {
    pub normalized: String,
    pub choices_json: String,
    pub display_text: String,
}

/// How a set of choices is remembered: keyed by its normalized form, with
/// the choices as JSON and their comma-separated text.
pub fn choice_history_row(choices: &Vec<String>) -> (r: ChoiceHistoryRow)
    ensures
        r.normalized@ == normalized_choices(strings_view(choices@)),
        r.choices_json@ == strings_json(strings_view(choices@)),
        json_strings(r.choices_json@) == Some(strings_view(choices@)),
        r.display_text@ == join_with(strings_view(choices@), ", "@),
{
    ChoiceHistoryRow {
        display_text: choice_display_text(choices),
        normalized: normalize_choices(choices),
        choices_json: write_strings_json(choices),
    }
}

} // verus!
