//! What the scheduler posts for a recurring series that is due.
use vstd::prelude::*;

use crate::calendar::{
    in_calendar_range, not_later, utc_date_of, utc_hour_minute_text, weekday_index, weekday_name,
    UtcTimestamp,
};
use crate::models::{NewPoll, RecurringSeries};
use crate::recurrence::{next_after_outcome, next_occurrence, parse_outcome, RecurrenceError};
use crate::text::{decimal, trim, trim_string, u64_to_string};

verus! {

/// An instant as `%A %H:%M` writes it in UTC: the English week day, then
/// hours and minutes.
pub open spec fn weekday_time_text(secs: int) -> Seq<char> {
    weekday_name(weekday_index(utc_date_of(secs))) + " "@ + utc_hour_minute_text(secs)
}

/// `DateTime::from_timestamp` and `DateTime::format("%A %H:%M")`.
#[verifier::external_body]
fn format_weekday_time(at: UtcTimestamp) -> (r: String)
    requires
        in_calendar_range(at),
    ensures
        r@ == weekday_time_text(at.secs as int),
{
    chrono::DateTime::from_timestamp(at.secs, at.nanos).unwrap().format("%A %H:%M").to_string()
}

/// The "when" text of a series' poll: its own, trimmed, or else the day and
/// time it is posted.
pub open spec fn when_text_for(when: Seq<char>, next_post_at: UtcTimestamp) -> Seq<char> {
    if trim(when).len() == 0 {
        weekday_time_text(next_post_at.secs as int)
    } else {
        trim(when)
    }
}

pub fn series_when_text(when: &str, next_post_at: UtcTimestamp) -> (r: String)
    requires
        in_calendar_range(next_post_at),
    ensures
        r@ == when_text_for(when@, next_post_at),
{
    let t = trim_string(when);
    if t.as_str().unicode_len() == 0 {
        format_weekday_time(next_post_at)
    } else {
        t
    }
}

/// The poll a due series posts: its title, description, location and
/// choices, the "when" text of `series_when_text`, marked as coming from the
/// series, made by the series' creator under their name (or their id when
/// no name is known).
pub fn series_poll(series: &RecurringSeries) -> (p: NewPoll)
    requires
        in_calendar_range(series.next_post_at),
    ensures
        p.title == series.title,
        p.description == series.description,
        p.when matches Some(w) && w@ == when_text_for(series.when@, series.next_post_at),
        p.location == series.location,
        p.choices@ == series.choices@,
        p.channel_id == series.channel_id,
        p.recurring_id matches Some(r) && r@ == series.id@,
        p.created_by == series.created_by,
        p.created_by_name@ == (match series.created_by_name {
            Some(n) => n@,
            None => decimal(series.created_by as nat),
        }),
{
    let created_by_name = match &series.created_by_name {
        Some(n) => n.clone(),
        None => u64_to_string(series.created_by),
    };
    NewPoll {
        title: series.title.clone(),
        description: series.description.clone(),
        when: Some(series_when_text(series.when.as_str(), series.next_post_at)),
        location: series.location.clone(),
        choices: series.choices.clone(),
        channel_id: series.channel_id,
        recurring_id: Some(series.id.clone()),
        created_by: series.created_by,
        created_by_name,
    }
}

/// What a tick does with a due series once it has tried to post its poll:
/// when the post failed, nothing, so the series stays due and is tried
/// again; when the poll was posted, the series moves on to its schedule's
/// first instant after `now`, in its zone.
pub fn next_post_after_posting(series: &RecurringSeries, posted: bool, now: UtcTimestamp) -> (r:
    Result<Option<UtcTimestamp>, RecurrenceError>)
    requires
        in_calendar_range(now),
    ensures
        !posted ==> r == Ok::<Option<UtcTimestamp>, RecurrenceError>(None),
        posted ==> match parse_outcome(series.schedule@) {
            Err(e) => r == Err::<Option<UtcTimestamp>, RecurrenceError>(e),
            Ok(rec) => match r {
                Ok(Some(t)) => next_after_outcome(
                    rec,
                    series.timezone@,
                    now,
                    Ok::<UtcTimestamp, RecurrenceError>(t),
                ),
                Err(e) => next_after_outcome(
                    rec,
                    series.timezone@,
                    now,
                    Err::<UtcTimestamp, RecurrenceError>(e),
                ),
                Ok(None) => false,
            },
        },
        r matches Ok(Some(t)) ==> !not_later(t, now),
{
    if !posted {
        return Ok(None);
    }
    match next_occurrence(series.schedule.as_str(), series.timezone.as_str(), now) {
        Ok(t) => Ok(Some(t)),
        Err(e) => Err(e),
    }
}

} // verus!
