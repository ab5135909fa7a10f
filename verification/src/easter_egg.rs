//! The easter egg: which day it is for, which message it posts, and how.
use vstd::prelude::*;

use crate::calendar::{
    in_calendar_range, iso_date_text, local_date, local_time, valid_date, valid_time,
    zone_local_date, zone_local_time, Date, TimeOfDay, UtcTimestamp,
};
use crate::recurrence::{local_datetime, resolve_local, RecurrenceError};
use crate::models::EasterEggSettings;
use crate::text::{append_str, decimal, push_decimal};

verus! {

/// The local date, in the zone named `timezone`, whose daily run `now` falls
/// in; `None` when the zone is unknown.
pub fn trigger_date(now: UtcTimestamp, timezone: &str) -> (r: Option<Date>)
    requires
        in_calendar_range(now),
    ensures
        r == zone_local_date(timezone@, now.secs as int, now.nanos as int),
{
    local_date(timezone, now)
}

/// A random number; nothing is promised of its value.
#[verifier::external_body]
fn random_u128() -> u128 {
    u128::from_be_bytes(*uuid::Uuid::new_v4().as_bytes())
}

/// The number in `min..=max` that a random number picks.
pub fn range_from_random(min: u64, max: u64, random: u128) -> (r: u64)
    requires
        min <= max,
    ensures
        r == min + (random as int) % (max - min + 1),
        min <= r <= max,
{
    let range: u128 = (max - min) as u128 + 1;
    let offset = random % range;
    assert(offset < range);
    min + offset as u64
}

/// The message a random number picks: the one at its remainder by the
/// number of messages; none when there are none.
pub open spec fn message_pick(messages: Seq<String>, random: u128) -> Option<String> {
    if messages.len() == 0 {
        None
    } else {
        Some(messages[random as int % messages.len() as int])
    }
}

/// The message that a random number picks.
pub fn message_for_random(messages: &Vec<String>, random: u128) -> (r: Option<String>)
    ensures
        r == message_pick(messages@, random),
{
    if messages.len() == 0 {
        return None;
    }
    let index = range_from_random(0, messages.len() as u64 - 1, random) as usize;
    Some(messages[index].clone())
}

/// One of the messages, picked by a random number; `None` when there are
/// none.
pub fn choose_message(messages: &Vec<String>) -> (r: Option<String>)
    ensures
        exists|random: u128| r == message_pick(messages@, random),
        messages@.len() == 0 <==> r is None,
        r matches Some(m) ==> messages@.contains(m),
{
    let random = random_u128();
    let r = message_for_random(messages, random);
    proof {
        if messages@.len() > 0 {
            assert(messages@[random as int % messages@.len() as int] == r->0);
        }
    }
    r
}

pub open spec fn taunt_text(target_user_id: u64, message: Seq<char>) -> Seq<char> {
    "<@"@ + decimal(target_user_id as nat) + "> "@ + message
}

/// The taunt: a mention of the target, a space, then the message.
pub fn format_taunt_message(target_user_id: u64, message: &str) -> (r: String)
    ensures
        r@ == taunt_text(target_user_id, message@),
{
    let mut r = String::new();
    append_str(&mut r, "<@");
    push_decimal(&mut r, target_user_id);
    append_str(&mut r, "> ");
    append_str(&mut r, message);
    r
}

// ---------------------------------------------------------------------------
// The daily roll
// ---------------------------------------------------------------------------

/// The local hour from which the day's roll is made.
pub const ROLL_HOUR: u32 = 4;

/// The sides of the die.
pub const ROLL_SIDES: u64 = 20;

/// The roll on which a taunt is posted.
pub const WINNING_ROLL: u64 = 11;

/// The minutes of a day.
pub const MINUTES_PER_DAY: u16 = 1440;

/// The local day whose roll is due at `now`: the easter egg is set up and
/// enabled, and it is 04:00 or later in the zone named `timezone`.
pub open spec fn roll_day_of(
    settings: Option<EasterEggSettings>,
    now: UtcTimestamp,
    timezone: Seq<char>,
) -> Option<Date> {
    match settings {
        Some(s) => if s.enabled {
            match (
                zone_local_date(timezone, now.secs as int, now.nanos as int),
                zone_local_time(timezone, now.secs as int, now.nanos as int),
            ) {
                (Some(d), Some(t)) => if t.hour >= ROLL_HOUR {
                    Some(d)
                } else {
                    None
                },
                _ => None,
            }
        } else {
            None
        },
        None => None,
    }
}

/// The day whose roll is due at `now`, if any.
pub fn roll_day(settings: Option<EasterEggSettings>, now: UtcTimestamp, timezone: &str) -> (r:
    Option<Date>)
    requires
        in_calendar_range(now),
    ensures
        r == roll_day_of(settings, now, timezone@),
        r matches Some(d) ==> valid_date(d),
{
    let s = match settings {
        Some(s) => s,
        None => return None,
    };
    if !s.enabled {
        return None;
    }
    let date = local_date(timezone, now);
    let time = local_time(timezone, now);
    match (date, time) {
        (Some(d), Some(t)) => if t.hour >= ROLL_HOUR {
            Some(d)
        } else {
            None
        },
        _ => None,
    }
}

/// A taunt planned for the day.
#[derive(Debug)]
pub struct ScheduledTaunt {
    pub scheduled_at: UtcTimestamp,
    pub target_user_id: u64,
    pub channel_id: u64,
    pub message: String,
}

/// The day's roll, and the taunt it planned when it won.
#[derive(Debug)]
pub struct DailyRoll {
    pub run_date: String,
    pub roll: u8,
    pub taunt: Option<ScheduledTaunt>,
}

/// The roll of a 1-20 die that a random number gives.
pub open spec fn roll_of(random: u128) -> int {
    1 + random as int % ROLL_SIDES as int
}

/// The window is a stretch of one day, its start not after its end.
pub open spec fn window_ok(s: EasterEggSettings) -> bool {
    s.window_start_minute <= s.window_end_minute < MINUTES_PER_DAY
}

/// The minute of the window that a random number picks.
pub open spec fn window_minute(s: EasterEggSettings, random: u128) -> int {
    s.window_start_minute + random as int % (s.window_end_minute - s.window_start_minute + 1)
}

/// A minute of the day as a time of day.
pub open spec fn time_of_minute(m: int) -> TimeOfDay {
    TimeOfDay { hour: (m / 60) as u32, minute: (m % 60) as u32 }
}

/// `r` is the roll of `date` for the given random numbers: the die gives
/// the roll; on an 11, with messages to pick from, a window of one day and
/// a local time that the zone resolves, the taunt is the message the third
/// number picks, for the target in the easter egg's channel, at the minute
/// of the window the second number picks.
pub open spec fn is_daily_roll(
    r: DailyRoll,
    s: EasterEggSettings,
    date: Date,
    timezone: Seq<char>,
    messages: Seq<String>,
    roll_random: u128,
    minute_random: u128,
    message_random: u128,
) -> bool {
    let when = resolve_local(timezone, date, time_of_minute(window_minute(s, minute_random)));
    &&& r.run_date@ == iso_date_text(date)
    &&& r.roll == roll_of(roll_random)
    &&& if r.roll == WINNING_ROLL && messages.len() > 0 && window_ok(s) && when is Ok {
        r.taunt matches Some(t) && when == Ok::<UtcTimestamp, RecurrenceError>(t.scheduled_at) && t.target_user_id
            == s.target_user_id && t.channel_id == s.channel_id && Some(t.message)
            == message_pick(messages, message_random)
    } else {
        r.taunt is None
    }
}

/// The roll of `date` for the given random numbers.
pub fn daily_roll(
    settings: &EasterEggSettings,
    date: Date,
    timezone: &str,
    messages: &Vec<String>,
    roll_random: u128,
    minute_random: u128,
    message_random: u128,
) -> (r: DailyRoll)
    requires
        valid_date(date),
    ensures
        is_daily_roll(
            r,
            *settings,
            date,
            timezone@,
            messages@,
            roll_random,
            minute_random,
            message_random,
        ),
{
    let roll = range_from_random(1, ROLL_SIDES, roll_random) as u8;
    let run_date = date.to_iso_string();
    let s = *settings;
    if roll as u64 != WINNING_ROLL || messages.len() == 0 || !(s.window_start_minute
        <= s.window_end_minute && s.window_end_minute < MINUTES_PER_DAY) {
        return DailyRoll { run_date, roll, taunt: None };
    }
    let minute = range_from_random(
        s.window_start_minute as u64,
        s.window_end_minute as u64,
        minute_random,
    );
    let time = TimeOfDay { hour: (minute / 60) as u32, minute: (minute % 60) as u32 };
    assert(time == time_of_minute(window_minute(s, minute_random)));
    assert(valid_time(time));
    let scheduled_at = match local_datetime(timezone, date, time) {
        Ok(t) => t,
        Err(_) => return DailyRoll { run_date, roll, taunt: None },
    };
    let message = match message_for_random(messages, message_random) {
        Some(m) => m,
        None => return DailyRoll { run_date, roll, taunt: None },
    };
    DailyRoll {
        run_date,
        roll,
        taunt: Some(
            ScheduledTaunt {
                scheduled_at,
                target_user_id: s.target_user_id,
                channel_id: s.channel_id,
                message,
            },
        ),
    }
}

/// The roll of `date`, made with fresh random numbers: it is the roll for
/// some three random numbers, so the die shows 1 to 20, and only an 11
/// plans a taunt, with one of the messages, at a minute of the window.
pub fn roll_today(
    settings: &EasterEggSettings,
    date: Date,
    timezone: &str,
    messages: &Vec<String>,
) -> (r: DailyRoll)
    requires
        valid_date(date),
    ensures
        exists|a: u128, b: u128, c: u128|
            is_daily_roll(r, *settings, date, timezone@, messages@, a, b, c),
        1 <= r.roll <= ROLL_SIDES,
        r.taunt is Some ==> r.roll == WINNING_ROLL,
        r.taunt matches Some(t) ==> messages@.contains(t.message),
{
    let a = random_u128();
    let b = random_u128();
    let c = random_u128();
    let r = daily_roll(settings, date, timezone, messages, a, b, c);
    proof {
        if r.taunt is Some {
            let m = r.taunt->0.message;
            assert(messages@[c as int % messages@.len() as int] == m);
        }
    }
    r
}

/// The day to roll for now: the due day, unless a roll is already recorded
/// for it.
pub fn roll_needed(day: Option<Date>, already_rolled: bool) -> (r: Option<Date>)
    ensures
        r == (if already_rolled {
            None
        } else {
            day
        }),
{
    if already_rolled {
        None
    } else {
        day
    }
}

/// The run dates rolled over a run of ticks, in order, when each tick's due
/// day is the next of `days`, `roll_needed` decides from the dates already
/// recorded, and every roll made is recorded.
pub open spec fn rolls_over_ticks(days: Seq<Option<Date>>, recorded: Set<Seq<char>>) -> Seq<
    Seq<char>,
>
    decreases days.len(),
{
    if days.len() == 0 {
        Seq::empty()
    } else {
        match days[0] {
            Some(d) => if !recorded.contains(iso_date_text(d)) {
                seq![iso_date_text(d)] + rolls_over_ticks(
                    days.skip(1),
                    recorded.insert(iso_date_text(d)),
                )
            } else {
                rolls_over_ticks(days.skip(1), recorded)
            },
            None => rolls_over_ticks(days.skip(1), recorded),
        }
    }
}

/// The easter egg rolls at most once for a day: over any run of ticks, no
/// run date is rolled twice, nor one already recorded before.
pub proof fn law_one_roll_a_day(days: Seq<Option<Date>>, recorded: Set<Seq<char>>)
    ensures
        rolls_over_ticks(days, recorded).no_duplicates(),
        forall|i: int|
            0 <= i < rolls_over_ticks(days, recorded).len() ==> !recorded.contains(
                #[trigger] rolls_over_ticks(days, recorded)[i],
            ),
    decreases days.len(),
{
    if days.len() > 0 {
        match days[0] {
            Some(d) => {
                let x = iso_date_text(d);
                if !recorded.contains(x) {
                    let rec2 = recorded.insert(x);
                    law_one_roll_a_day(days.skip(1), rec2);
                    let tail = rolls_over_ticks(days.skip(1), rec2);
                    let all = rolls_over_ticks(days, recorded);
                    assert(all == seq![x] + tail);
                    assert forall|i: int| 0 <= i < all.len() implies !recorded.contains(
                        #[trigger] all[i],
                    ) by {
                        if i > 0 {
                            assert(all[i] == tail[i - 1]);
                            assert(!rec2.contains(tail[i - 1]));
                        }
                    }
                    assert forall|i: int, j: int| 0 <= i < j < all.len() implies all[i]
                        != all[j] by {
                        assert(all[j] == tail[j - 1]);
                        assert(!rec2.contains(tail[j - 1]));
                        if i > 0 {
                            assert(all[i] == tail[i - 1]);
                        }
                    }
                } else {
                    law_one_roll_a_day(days.skip(1), recorded);
                }
            },
            None => {
                law_one_roll_a_day(days.skip(1), recorded);
            },
        }
    }
}

} // verus!
