//! Polls, votes, recurring series and the easter egg's records.
use vstd::prelude::*;

use crate::calendar::{now, UtcTimestamp};
use crate::text::{chars_of, string_of_range};

verus! {

/// A poll posted in a channel.
#[derive(Clone, Debug)]
pub struct Poll {
    pub id: String,
    pub title: String,
    pub description: Option<String>,
    pub when: Option<String>,
    pub location: Option<String>,
    pub choices: Vec<String>,
    pub channel_id: u64,
    pub message_id: Option<u64>,
    pub recurring_id: Option<String>,
    pub created_by: u64,
    pub created_by_name: Option<String>,
    pub created_at: UtcTimestamp,
}

/// What a new poll is made from.
#[derive(Clone, Debug)]
pub struct NewPoll {
    pub title: String,
    pub description: Option<String>,
    pub when: Option<String>,
    pub location: Option<String>,
    pub choices: Vec<String>,
    pub channel_id: u64,
    pub recurring_id: Option<String>,
    pub created_by: u64,
    pub created_by_name: String,
}

/// One user's vote on a poll.
#[derive(Clone, Debug)]
pub struct Vote {
    pub user_id: u64,
    pub display_name: Option<String>,
    pub choice: String,
}

/// Users and roles to ping when a poll is posted, and the message that
/// pings them.
#[derive(Clone, Debug)]
pub struct PollNotification {
    pub content: String,
    pub user_ids: Vec<u64>,
    pub role_ids: Vec<u64>,
}

/// A poll posted again and again on a schedule.
#[derive(Clone, Debug)]
pub struct RecurringSeries {
    pub id: String,
    pub title: String,
    pub description: Option<String>,
    pub schedule: String,
    pub when: String,
    pub location: Option<String>,
    /// The IANA name of the zone the schedule is read in.
    pub timezone: String,
    pub choices: Vec<String>,
    pub notification: Option<PollNotification>,
    pub channel_id: u64,
    pub created_by: u64,
    pub created_by_name: Option<String>,
    pub next_post_at: UtcTimestamp,
}

/// What a new recurring series is made from.
#[derive(Clone, Debug)]
pub struct NewRecurringSeries {
    pub title: String,
    pub description: Option<String>,
    pub schedule: String,
    pub when: String,
    pub location: Option<String>,
    pub timezone: String,
    pub choices: Vec<String>,
    pub notification: Option<PollNotification>,
    pub channel_id: u64,
    pub created_by: u64,
    pub created_by_name: String,
    pub next_post_at: UtcTimestamp,
}

#[derive(Clone, Copy, Debug)]
pub struct EasterEggSettings {
    pub enabled: bool,
    pub target_user_id: u64,
    pub channel_id: u64,
    pub window_start_minute: u16,
    pub window_end_minute: u16,
    pub updated_by: u64,
}

#[derive(Clone, Debug)]
pub struct EasterEggMessage {
    pub id: String,
    pub message: String,
}

#[derive(Clone, Debug)]
pub struct DueEasterEggTaunt {
    pub run_date: String,
    pub target_user_id: u64,
    pub channel_id: u64,
    pub message: String,
}

pub open spec fn is_lower_hex(c: char) -> bool {
    ('0' <= c <= '9') || ('a' <= c <= 'f')
}

/// An identifier as the library makes them: eight lowercase hex digits.
pub open spec fn is_short_id(s: Seq<char>) -> bool {
    s.len() == 8 && forall|i: int| 0 <= i < s.len() ==> is_lower_hex(#[trigger] s[i])
}

/// `Uuid::new_v4().simple().to_string()`: a fresh random UUID written as 32
/// lowercase hex digits without hyphens, as the `simple` format does.
#[verifier::external_body]
fn uuid_simple() -> (r: String)
    ensures
        r@.len() == 32,
        forall|i: int| 0 <= i < r@.len() ==> is_lower_hex(#[trigger] r@[i]),
{
    uuid::Uuid::new_v4().simple().to_string()
}

/// A fresh random identifier: the first eight digits of a random UUID.
pub fn short_id() -> (r: String)
    ensures
        is_short_id(r@),
{
    let full = uuid_simple();
    let v = chars_of(full.as_str());
    string_of_range(&v, 0, 8)
}

impl Poll {
    /// A poll made of `input`, with the given identifier and creation time,
    /// not yet posted.
    pub fn from_parts(input: NewPoll, id: String, created_at: UtcTimestamp) -> (p: Poll)
        ensures
            p.id == id,
            p.title == input.title,
            p.description == input.description,
            p.when == input.when,
            p.location == input.location,
            p.choices == input.choices,
            p.channel_id == input.channel_id,
            p.message_id is None,
            p.recurring_id == input.recurring_id,
            p.created_by == input.created_by,
            p.created_by_name == Some(input.created_by_name),
            p.created_at == created_at,
    {
        Poll {
            id,
            title: input.title,
            description: input.description,
            when: input.when,
            location: input.location,
            choices: input.choices,
            channel_id: input.channel_id,
            message_id: None,
            recurring_id: input.recurring_id,
            created_by: input.created_by,
            created_by_name: Some(input.created_by_name),
            created_at,
        }
    }

    /// A new poll made of `input`, with a fresh identifier, created now.
    pub fn new(input: NewPoll) -> (p: Poll)
        ensures
            is_short_id(p.id@),
            p.title == input.title,
            p.description == input.description,
            p.when == input.when,
            p.location == input.location,
            p.choices == input.choices,
            p.channel_id == input.channel_id,
            p.message_id is None,
            p.recurring_id == input.recurring_id,
            p.created_by == input.created_by,
            p.created_by_name == Some(input.created_by_name),
    {
        let id = short_id();
        let created_at = now();
        Poll::from_parts(input, id, created_at)
    }
}

impl RecurringSeries {
    /// A series made of `input` with the given identifier.
    pub fn from_parts(input: NewRecurringSeries, id: String) -> (s: RecurringSeries)
        ensures
            s.id == id,
            s.title == input.title,
            s.description == input.description,
            s.schedule == input.schedule,
            s.when == input.when,
            s.location == input.location,
            s.timezone == input.timezone,
            s.choices == input.choices,
            s.notification == input.notification,
            s.channel_id == input.channel_id,
            s.created_by == input.created_by,
            s.created_by_name == Some(input.created_by_name),
            s.next_post_at == input.next_post_at,
    {
        RecurringSeries {
            id,
            title: input.title,
            description: input.description,
            schedule: input.schedule,
            when: input.when,
            location: input.location,
            timezone: input.timezone,
            choices: input.choices,
            notification: input.notification,
            channel_id: input.channel_id,
            created_by: input.created_by,
            created_by_name: Some(input.created_by_name),
            next_post_at: input.next_post_at,
        }
    }

    /// A new series made of `input`, with a fresh identifier.
    pub fn new(input: NewRecurringSeries) -> (s: RecurringSeries)
        ensures
            is_short_id(s.id@),
            s.title == input.title,
            s.description == input.description,
            s.schedule == input.schedule,
            s.when == input.when,
            s.location == input.location,
            s.timezone == input.timezone,
            s.choices == input.choices,
            s.notification == input.notification,
            s.channel_id == input.channel_id,
            s.created_by == input.created_by,
            s.created_by_name == Some(input.created_by_name),
            s.next_post_at == input.next_post_at,
    {
        let id = short_id();
        RecurringSeries::from_parts(input, id)
    }
}

impl EasterEggMessage {
    /// A message with a fresh identifier.
    pub fn new(message: String) -> (m: EasterEggMessage)
        ensures
            is_short_id(m.id@),
            m.message == message,
    {
        EasterEggMessage { id: short_id(), message }
    }
}

} // verus!
