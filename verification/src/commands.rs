//! What the slash commands decide and say: who to notify, which channels
//! the bot answers in, the suggestions offered while typing choices, and the
//! replies.
use vstd::prelude::*;

use crate::calendar::{
    hour_minute_parse, in_calendar_range, not_later, parse_hour_minute, push_zero_padded,
    zero_padded, TimeOfDay, UtcTimestamp,
};
use crate::choices::{
    default_choices, parse_choices, parse_choices_outcome, ChoicesError,
    ChoicesFailure,
};
use crate::discord::{discord_time_text, format_discord_time};
use crate::easter_egg::{choose_message, format_taunt_message, taunt_text};
use crate::models::{
    EasterEggMessage, EasterEggSettings, NewPoll, NewRecurringSeries, PollNotification,
    RecurringSeries,
};
use crate::recurrence::{next_after_outcome, next_occurrence, parse_outcome, RecurrenceError};
use crate::validation::{
    clean_text, clean_text_outcome, optional_description, optional_location, optional_when,
    poll_title, str_to_string, ValidationError, ValidationFailure, MAX_DESCRIPTION_LEN,
    MAX_LOCATION_LEN, MAX_TITLE_LEN, MAX_WHEN_LEN,
};
use crate::text::{
    append_str, chars_of, commas_as_spaces, commas_to_spaces, contains_str, contains_text,
    decimal, join_strings, join_with, lowercase, parse_u64, parse_unsigned, push_decimal,
    split_whitespace, string_of, string_of_range, strings_view, to_lowercase, trim,
    trim_bounds, trim_string, words,
};

verus! {

// ---------------------------------------------------------------------------
// Notifications
// ---------------------------------------------------------------------------

/// The user a token like `<@123>` or `<@!123>` mentions.
pub open spec fn user_mention_id(t: Seq<char>) -> Option<nat> {
    if t.len() >= 3 && t.take(2) == "<@"@ && t.last() == '>' {
        let inner = t.subrange(2, t.len() - 1);
        let id = if inner.len() > 0 && inner[0] == '!' {
            inner.drop_first()
        } else {
            inner
        };
        if id.len() > 0 && id[0] == '&' {
            None
        } else {
            parse_unsigned(id, u64::MAX as nat)
        }
    } else {
        None
    }
}

/// The role a token like `<@&456>` mentions.
pub open spec fn role_mention_id(t: Seq<char>) -> Option<nat> {
    if t.len() >= 4 && t.take(3) == "<@&"@ && t.last() == '>' {
        parse_unsigned(t.subrange(3, t.len() - 1), u64::MAX as nat)
    } else {
        None
    }
}

fn has_prefix(v: &Vec<char>, p: &str) -> (r: bool)
    ensures
        r == (v@.len() >= p@.len() && v@.take(p@.len() as int) == p@),
{
    let w = chars_of(p);
    if v.len() < w.len() {
        return false;
    }
    let mut i: usize = 0;
    while i < w.len()
        invariant
            i <= w@.len() <= v@.len(),
            w@ == p@,
            forall|k: int| 0 <= k < i ==> v@[k] == w@[k],
        decreases w@.len() - i,
    {
        if v[i] != w[i] {
            assert(v@.take(w@.len() as int)[i as int] != w@[i as int]);
            return false;
        }
        i += 1;
    }
    assert(v@.take(w@.len() as int) =~= w@);
    true
}

pub fn parse_user_mention(token: &str) -> (r: Option<u64>)
    ensures
        match r {
            Some(id) => user_mention_id(token@) == Some(id as nat),
            None => user_mention_id(token@) is None,
        },
{
    proof {
        reveal_strlit("<@");
    }
    let v = chars_of(token);
    if !(v.len() >= 3 && has_prefix(&v, "<@") && v[v.len() - 1] == '>') {
        return None;
    }
    let mut from: usize = 2;
    if v[2] == '!' && v.len() - 1 > 2 {
        from = 3;
    }
    if from < v.len() - 1 && v[from] == '&' {
        return None;
    }
    let id = string_of_range(&v, from, v.len() - 1);
    proof {
        let inner = v@.subrange(2, v@.len() - 1);
        if inner.len() > 0 && inner[0] == '!' {
            assert(inner.drop_first() =~= id@);
        } else {
            assert(inner =~= id@);
        }
    }
    parse_u64(id.as_str())
}

pub fn parse_role_mention(token: &str) -> (r: Option<u64>)
    ensures
        match r {
            Some(id) => role_mention_id(token@) == Some(id as nat),
            None => role_mention_id(token@) is None,
        },
{
    proof {
        reveal_strlit("<@&");
    }
    let v = chars_of(token);
    if !(v.len() >= 4 && has_prefix(&v, "<@&") && v[v.len() - 1] == '>') {
        return None;
    }
    let id = string_of_range(&v, 3, v.len() - 1);
    parse_u64(id.as_str())
}

/// The users and roles the tokens mention, each once, in order of first
/// mention; `None` when a token mentions neither a user nor a role.
pub open spec fn collect_mentions(tokens: Seq<Seq<char>>) -> Option<(Seq<u64>, Seq<u64>)>
    decreases tokens.len(),
{
    if tokens.len() == 0 {
        Some((Seq::empty(), Seq::empty()))
    } else {
        match collect_mentions(tokens.drop_last()) {
            None => None,
            Some((users, roles)) => {
                let t = tokens.last();
                match user_mention_id(t) {
                    Some(id) => if users.contains(id as u64) {
                        Some((users, roles))
                    } else {
                        Some((users.push(id as u64), roles))
                    },
                    None => match role_mention_id(t) {
                        Some(id) => if roles.contains(id as u64) {
                            Some((users, roles))
                        } else {
                            Some((users, roles.push(id as u64)))
                        },
                        None => None,
                    },
                }
            },
        }
    }
}

pub open spec fn role_mention_text(role_id: u64) -> Seq<char> {
    "<@&"@ + decimal(role_id as nat) + ">"@
}

/// The message that pings them: user mentions, then role mentions, spaced.
pub open spec fn notification_content(users: Seq<u64>, roles: Seq<u64>) -> Seq<char> {
    join_with(
        users.map_values(|u: u64| crate::discord::mention_text(u)) + roles.map_values(
            |r: u64| role_mention_text(r),
        ),
        " "@,
    )
}

/// Why the `notify` option was refused.
#[derive(Clone, Copy, Debug, PartialEq, Eq, Structural)]
pub enum NotificationError {
    NotAMention,
}

impl NotificationError {
    pub open spec fn message_text(self) -> Seq<char> {
        "notify can only contain user or role mentions, like @person or @friends"@
    }

    pub fn message(&self) -> (m: String)
        ensures
            m@ == self.message_text(),
    {
        crate::validation::str_to_string(
            "notify can only contain user or role mentions, like @person or @friends",
        )
    }
}

/// What `parse_notification` gives: nothing for no or blank text; the
/// mentioned users and roles when every token is a mention; nothing when no
/// one is mentioned.
pub open spec fn notification_outcome(value: Option<Seq<char>>) -> Result<
    Option<(Seq<u64>, Seq<u64>)>,
    NotificationError,
> {
    match value {
        None => Ok(None),
        Some(v) => {
            let t = trim(v);
            if t.len() == 0 {
                Ok(None)
            } else {
                match collect_mentions(words(commas_as_spaces(t))) {
                    None => Err(NotificationError::NotAMention),
                    Some((users, roles)) => if users.len() == 0 && roles.len() == 0 {
                        Ok(None)
                    } else {
                        Ok(Some((users, roles)))
                    },
                }
            }
        },
    }
}

proof fn lemma_collect_step(tokens: Seq<Seq<char>>, i: int)
    requires
        0 <= i < tokens.len(),
    ensures
        collect_mentions(tokens.take(i + 1)) == (match collect_mentions(tokens.take(i)) {
            None => None,
            Some((users, roles)) => {
                let t = tokens[i];
                match user_mention_id(t) {
                    Some(id) => if users.contains(id as u64) {
                        Some((users, roles))
                    } else {
                        Some((users.push(id as u64), roles))
                    },
                    None => match role_mention_id(t) {
                        Some(id) => if roles.contains(id as u64) {
                            Some((users, roles))
                        } else {
                            Some((users, roles.push(id as u64)))
                        },
                        None => None,
                    },
                }
            },
        }),
{
    assert(tokens.take(i + 1).drop_last() =~= tokens.take(i));
    assert(tokens.take(i + 1).last() == tokens[i]);
}

proof fn lemma_collect_none_extends(tokens: Seq<Seq<char>>, i: int)
    requires
        0 <= i <= tokens.len(),
        collect_mentions(tokens.take(i)) is None,
    ensures
        collect_mentions(tokens) is None,
    decreases tokens.len() - i,
{
    if i < tokens.len() {
        lemma_collect_step(tokens, i);
        lemma_collect_none_extends(tokens, i + 1);
    } else {
        assert(tokens.take(i) =~= tokens);
    }
}

fn vec_contains(v: &Vec<u64>, x: u64) -> (r: bool)
    ensures
        r == v@.contains(x),
{
    let mut i: usize = 0;
    while i < v.len()
        invariant
            i <= v@.len(),
            forall|k: int| 0 <= k < i ==> v@[k] != x,
        decreases v@.len() - i,
    {
        if v[i] == x {
            assert(v@[i as int] == x);
            return true;
        }
        i += 1;
    }
    false
}

/// The text that pings the users, then the roles, separated by spaces.
pub fn notification_text(user_ids: &Vec<u64>, role_ids: &Vec<u64>) -> (r: String)
    ensures
        r@ == notification_content(user_ids@, role_ids@),
{
    let mut parts: Vec<String> = Vec::new();
    let mut i: usize = 0;
    while i < user_ids.len()
        invariant
            i <= user_ids@.len(),
            parts@.len() == i,
            forall|k: int|
                0 <= k < i ==> (#[trigger] parts@[k])@ == crate::discord::mention_text(
                    user_ids@[k],
                ),
        decreases user_ids@.len() - i,
    {
        parts.push(crate::discord::user_mention(user_ids[i]));
        i += 1;
    }
    let mut j: usize = 0;
    while j < role_ids.len()
        invariant
            i == user_ids@.len(),
            j <= role_ids@.len(),
            parts@.len() == i + j,
            forall|k: int|
                0 <= k < i ==> (#[trigger] parts@[k])@ == crate::discord::mention_text(
                    user_ids@[k],
                ),
            forall|k: int| 0 <= k < j ==> (#[trigger] parts@[i + k])@ == role_mention_text(role_ids@[k]),
        decreases role_ids@.len() - j,
    {
        let mut m = String::new();
        append_str(&mut m, "<@&");
        push_decimal(&mut m, role_ids[j]);
        append_str(&mut m, ">");
        parts.push(m);
        j += 1;
    }
    let ghost want = user_ids@.map_values(|u: u64| crate::discord::mention_text(u))
        + role_ids@.map_values(|r: u64| role_mention_text(r));
    assert forall|k: int| 0 <= k < want.len() implies strings_view(parts@)[k] == want[k] by {
        if k < i {
            assert(parts@[k]@ == crate::discord::mention_text(user_ids@[k]));
        } else {
            assert(parts@[i + (k - i)]@ == role_mention_text(role_ids@[k - i]));
        }
    }
    assert(strings_view(parts@) =~= want);
    join_strings(&parts, " ")
}

/// Reads the `notify` option: user and role mentions separated by spaces or
/// commas.
pub fn parse_notification(value: Option<String>) -> (r: Result<
    Option<PollNotification>,
    NotificationError,
>)
    ensures
        match notification_outcome(
            match value {
                Some(v) => Some(v@),
                None => None,
            },
        ) {
            Err(e) => r == Err::<Option<PollNotification>, NotificationError>(e),
            Ok(None) => r matches Ok(None),
            Ok(Some((users, roles))) => r matches Ok(Some(n)) && n.user_ids@ == users
                && n.role_ids@ == roles && n.content@ == notification_content(users, roles),
        },
{
    let text = match &value {
        None => return Ok(None),
        Some(v) => v,
    };
    let trimmed = trim_string(text.as_str());
    let tv = chars_of(trimmed.as_str());
    if tv.len() == 0 {
        return Ok(None);
    }
    let tokens = split_whitespace(&commas_to_spaces(&tv));
    let ghost ts = words(commas_as_spaces(trim(text@)));
    let mut user_ids: Vec<u64> = Vec::new();
    let mut role_ids: Vec<u64> = Vec::new();
    let mut i: usize = 0;
    assert(ts.take(0) =~= Seq::<Seq<char>>::empty());
    while i < tokens.len()
        invariant
            i <= tokens@.len() == ts.len(),
            value is Some,
            value->0@ == text@,
            trim(text@).len() > 0,
            ts == words(commas_as_spaces(trim(text@))),
            forall|k: int| 0 <= k < tokens@.len() ==> (#[trigger] tokens@[k])@ == ts[k],
            collect_mentions(ts.take(i as int)) == Some((user_ids@, role_ids@)),
        decreases tokens@.len() - i,
    {
        proof {
            lemma_collect_step(ts, i as int);
        }
        let token = string_of(&tokens[i]);
        match parse_user_mention(token.as_str()) {
            Some(id) => {
                if !vec_contains(&user_ids, id) {
                    user_ids.push(id);
                }
            },
            None => match parse_role_mention(token.as_str()) {
                Some(id) => {
                    if !vec_contains(&role_ids, id) {
                        role_ids.push(id);
                    }
                },
                None => {
                    proof {
                        lemma_collect_none_extends(ts, i + 1);
                    }
                    return Err(NotificationError::NotAMention);
                },
            },
        }
        i += 1;
    }
    assert(ts.take(ts.len() as int) =~= ts);
    if user_ids.len() == 0 && role_ids.len() == 0 {
        return Ok(None);
    }
    let content = notification_text(&user_ids, &role_ids);
    Ok(Some(PollNotification { content, user_ids, role_ids }))
}

// ---------------------------------------------------------------------------
// Summaries and replies
// ---------------------------------------------------------------------------

/// The notification's text, or `none` when there is none or it is blank.
pub open spec fn notification_summary_text(notification: Option<Seq<char>>) -> Seq<char> {
    match notification {
        Some(c) => if trim(c).len() > 0 {
            c
        } else {
            "none"@
        },
        None => "none"@,
    }
}

pub fn series_notification_summary(notification: Option<&PollNotification>) -> (r: String)
    ensures
        r@ == notification_summary_text(
            match notification {
                Some(n) => Some(n.content@),
                None => None,
            },
        ),
{
    match notification {
        Some(n) => {
            let v = chars_of(n.content.as_str());
            let (a, b) = trim_bounds(&v);
            if a < b {
                n.content.clone()
            } else {
                crate::validation::str_to_string("none")
            }
        },
        None => crate::validation::str_to_string("none"),
    }
}

/// The trimmed text, or `not set` when blank.
pub open spec fn when_summary_text(when: Seq<char>) -> Seq<char> {
    if trim(when).len() == 0 {
        "not set"@
    } else {
        trim(when)
    }
}

pub fn series_when_summary(when: &str) -> (r: String)
    ensures
        r@ == when_summary_text(when@),
{
    let t = trim_string(when);
    if t.as_str().unicode_len() == 0 {
        crate::validation::str_to_string("not set")
    } else {
        t
    }
}

/// The name shown for a user: the global display name, else the user name.
pub fn display_name_for_user(global_name: Option<&str>, name: &str) -> (r: String)
    ensures
        r@ == (match global_name {
            Some(g) => g@,
            None => name@,
        }),
{
    match global_name {
        Some(g) => crate::validation::str_to_string(g),
        None => crate::validation::str_to_string(name),
    }
}

pub open spec fn help_text_value() -> Seq<char> {
    "**Urinal Fish help**\n\n**Create a one-off poll**\n`/event single title: Drinks when: Friday 20:00 choices: yes,no,maybe where: Berlin`\n\n**Create a recurring poll**\n`/event recurring title: Friday drinks schedule: weekly fri 12:00 when: Friday 20:00 choices: yes,no,maybe where: Berlin`\n\n**Useful options**\n`choices` is comma-separated and required. Previously used choice sets are suggested while typing.\n`where` and `notify` are optional. One-off polls also support `description`. `notify` can ping users or roles.\n\n**Recurring schedules**\n`daily 19:00`, `weekly fri 20:00`, `friday 20:00`, `monthly 15 19:30`\n\n**Manage recurring events**\n`/series_list` shows active recurring events.\n`/series_delete id:<series id>` stops one.\n\n**Voting**\nPress a choice button to vote. Pressing a different button changes your vote."@
}

/// The `/help` text.
pub fn help_text() -> (r: String)
    ensures
        r@ == help_text_value(),
{
    crate::validation::str_to_string(
        "**Urinal Fish help**\n\n**Create a one-off poll**\n`/event single title: Drinks when: Friday 20:00 choices: yes,no,maybe where: Berlin`\n\n**Create a recurring poll**\n`/event recurring title: Friday drinks schedule: weekly fri 12:00 when: Friday 20:00 choices: yes,no,maybe where: Berlin`\n\n**Useful options**\n`choices` is comma-separated and required. Previously used choice sets are suggested while typing.\n`where` and `notify` are optional. One-off polls also support `description`. `notify` can ping users or roles.\n\n**Recurring schedules**\n`daily 19:00`, `weekly fri 20:00`, `friday 20:00`, `monthly 15 19:30`\n\n**Manage recurring events**\n`/series_list` shows active recurring events.\n`/series_delete id:<series id>` stops one.\n\n**Voting**\nPress a choice button to vote. Pressing a different button changes your vote.",
    )
}

// ---------------------------------------------------------------------------
// Allowed channels
// ---------------------------------------------------------------------------

/// Whether commands are answered in `channel_id`.
pub fn is_allowed_channel(allowed: &Vec<u64>, channel_id: u64) -> (r: bool)
    ensures
        r == allowed@.contains(channel_id),
{
    vec_contains(allowed, channel_id)
}

pub open spec fn channel_mention_text(id: u64) -> Seq<char> {
    "<#"@ + decimal(id as nat) + ">"@
}

/// The reply to a command used elsewhere: the allowed channels, mentioned.
pub open spec fn rejection_reply_text(allowed: Seq<u64>) -> Seq<char> {
    "Use this bot in "@ + join_with(allowed.map_values(|c: u64| channel_mention_text(c)), ", "@)
        + ". I will ignore commands anywhere else."@
}

/// The error logged for a command used elsewhere: the allowed channel ids.
pub open spec fn rejection_error_text(allowed: Seq<u64>) -> Seq<char> {
    "command used outside allowed channels: "@ + join_with(
        allowed.map_values(|c: u64| decimal(c as nat)),
        ", "@,
    )
}

pub fn rejection_reply(allowed: &Vec<u64>) -> (r: String)
    ensures
        r@ == rejection_reply_text(allowed@),
{
    let mut parts: Vec<String> = Vec::new();
    let mut i: usize = 0;
    while i < allowed.len()
        invariant
            i <= allowed@.len(),
            parts@.len() == i,
            forall|k: int| 0 <= k < i ==> (#[trigger] parts@[k])@ == channel_mention_text(allowed@[k]),
        decreases allowed@.len() - i,
    {
        let mut m = String::new();
        append_str(&mut m, "<#");
        push_decimal(&mut m, allowed[i]);
        append_str(&mut m, ">");
        parts.push(m);
        i += 1;
    }
    assert(strings_view(parts@) =~= allowed@.map_values(|c: u64| channel_mention_text(c)));
    let mut r = String::new();
    append_str(&mut r, "Use this bot in ");
    append_str(&mut r, join_strings(&parts, ", ").as_str());
    append_str(&mut r, ". I will ignore commands anywhere else.");
    r
}

pub fn rejection_error(allowed: &Vec<u64>) -> (r: String)
    ensures
        r@ == rejection_error_text(allowed@),
{
    let mut parts: Vec<String> = Vec::new();
    let mut i: usize = 0;
    while i < allowed.len()
        invariant
            i <= allowed@.len(),
            parts@.len() == i,
            forall|k: int| 0 <= k < i ==> (#[trigger] parts@[k])@ == decimal(allowed@[k] as nat),
        decreases allowed@.len() - i,
    {
        parts.push(crate::text::u64_to_string(allowed[i]));
        i += 1;
    }
    assert(strings_view(parts@) =~= allowed@.map_values(|c: u64| decimal(c as nat)));
    let mut r = String::new();
    append_str(&mut r, "command used outside allowed channels: ");
    append_str(&mut r, join_strings(&parts, ", ").as_str());
    r
}

// ---------------------------------------------------------------------------
// Choice suggestions
// ---------------------------------------------------------------------------

/// The items without repeats, each kept where it first occurs.
pub open spec fn first_occurrences<A>(items: Seq<A>) -> Seq<A>
    decreases items.len(),
{
    if items.len() == 0 {
        Seq::empty()
    } else {
        let d = first_occurrences(items.drop_last());
        if d.contains(items.last()) {
            d
        } else {
            d.push(items.last())
        }
    }
}

/// The items whose lowercase form holds the (lowercased, trimmed) typed
/// text, in order.
pub open spec fn matching_items(items: Seq<Seq<char>>, typed: Seq<char>) -> Seq<Seq<char>>
    decreases items.len(),
{
    if items.len() == 0 {
        Seq::empty()
    } else {
        let m = matching_items(items.drop_last(), typed);
        if typed.len() == 0 || contains_text(lowercase(items.last()), typed) {
            m.push(items.last())
        } else {
            m
        }
    }
}

pub const MAX_SUGGESTIONS: usize = 25;

/// The suggestions for the `choices` option: the default choices, then the
/// remembered ones, those holding the typed text, without repeats, at most
/// twenty-five.
pub open spec fn suggestions_for(typed: Seq<char>, history: Seq<Seq<char>>) -> Seq<Seq<char>> {
    let all = seq!["yes, no, maybe"@] + history;
    let d = first_occurrences(matching_items(all, lowercase(trim(typed))));
    if d.len() > MAX_SUGGESTIONS {
        d.take(MAX_SUGGESTIONS as int)
    } else {
        d
    }
}

fn strings_contain(v: &Vec<String>, s: &String) -> (r: bool)
    ensures
        r == strings_view(v@).contains(s@),
{
    let mut i: usize = 0;
    while i < v.len()
        invariant
            i <= v@.len(),
            forall|k: int| 0 <= k < i ==> v@[k]@ != s@,
        decreases v@.len() - i,
    {
        if v[i] == *s {
            assert(strings_view(v@)[i as int] == s@);
            return true;
        }
        i += 1;
    }
    proof {
        if strings_view(v@).contains(s@) {
            let k = choose|k: int| 0 <= k < strings_view(v@).len() && strings_view(v@)[k] == s@;
            assert(v@[k]@ == s@);
        }
    }
    false
}

proof fn lemma_default_choices_joined()
    ensures
        join_with(seq!["yes"@, "no"@, "maybe"@], ", "@) == "yes, no, maybe"@,
{
    reveal_strlit("yes");
    reveal_strlit("no");
    reveal_strlit("maybe");
    reveal_strlit(", ");
    reveal_strlit("yes, no, maybe");
    let d = seq!["yes"@, "no"@, "maybe"@];
    assert(d.drop_last() =~= seq!["yes"@, "no"@]);
    assert(seq!["yes"@, "no"@].drop_last() =~= seq!["yes"@]);
    assert(join_with(seq!["yes"@], ", "@) == "yes"@);
    assert(join_with(seq!["yes"@, "no"@], ", "@) =~= "yes"@ + ", "@ + "no"@);
    assert(join_with(d, ", "@) =~= "yes, no, maybe"@);
}

/// The suggestions offered while the `choices` option is typed, given the
/// remembered choice sets.
pub fn autocomplete_suggestions(partial: &str, history: &Vec<String>) -> (r: Vec<String>)
    ensures
        strings_view(r@) == suggestions_for(partial@, strings_view(history@)),
{
    let mut all: Vec<String> = Vec::new();
    let defaults = default_choices();
    assert(strings_view(defaults@) =~= seq!["yes"@, "no"@, "maybe"@]);
    all.push(join_strings(&defaults, ", "));
    proof {
        lemma_default_choices_joined();
    }
    let mut h: usize = 0;
    while h < history.len()
        invariant
            h <= history@.len(),
            all@.len() == 1 + h,
            all@[0]@ == "yes, no, maybe"@,
            forall|k: int| 0 <= k < h ==> (#[trigger] all@[1 + k])@ == history@[k]@,
        decreases history@.len() - h,
    {
        all.push(history[h].clone());
        h += 1;
    }
    let ghost items = seq!["yes, no, maybe"@] + strings_view(history@);
    assert forall|k: int| 0 <= k < items.len() implies strings_view(all@)[k] == items[k] by {
        if k > 0 {
            assert(all@[1 + (k - 1)]@ == history@[k - 1]@);
        }
    }
    assert(strings_view(all@) =~= items);
    let typed_string = to_lowercase(trim_string(partial).as_str());
    let typed = chars_of(typed_string.as_str());
    let mut out: Vec<String> = Vec::new();
    let ghost mut kept: Seq<Seq<char>> = Seq::empty();
    let mut i: usize = 0;
    assert(items.take(0) =~= Seq::<Seq<char>>::empty());
    while i < all.len()
        invariant
            i <= all@.len() == items.len(),
            strings_view(all@) == items,
            typed@ == lowercase(trim(partial@)),
            kept == matching_items(items.take(i as int), typed@),
            strings_view(out@) == first_occurrences(kept),
        decreases all@.len() - i,
    {
        assert(items.take(i + 1).drop_last() =~= items.take(i as int));
        assert(items.take(i + 1).last() == all@[i as int]@);
        let lowered = to_lowercase(all[i].as_str());
        let keep = typed.len() == 0 || contains_str(&chars_of(lowered.as_str()), &typed);
        if keep {
            let ghost before = kept;
            proof {
                kept = kept.push(all@[i as int]@);
                assert(kept.drop_last() =~= before);
            }
            if !strings_contain(&out, &all[i]) {
                let ghost o = out@;
                out.push(all[i].clone());
                assert(strings_view(out@) =~= strings_view(o).push(all@[i as int]@));
            }
        }
        i += 1;
    }
    assert(items.take(items.len() as int) =~= items);
    if out.len() > MAX_SUGGESTIONS {
        out.truncate(MAX_SUGGESTIONS);
        assert(strings_view(out@) =~= first_occurrences(kept).take(MAX_SUGGESTIONS as int));
    }
    out
}

// ---------------------------------------------------------------------------
// Replies
// ---------------------------------------------------------------------------

/// One line of `/series_list`.
pub open spec fn series_line_text(
    id: Seq<char>,
    title: Seq<char>,
    when: Seq<char>,
    next_post_at: UtcTimestamp,
    choices: Seq<Seq<char>>,
    notification: Option<Seq<char>>,
) -> Seq<char> {
    "`"@ + id + "`: "@ + title + " | when: "@ + when_summary_text(when) + " | next post "@
        + discord_time_text(next_post_at) + " | choices: "@ + join_with(choices, ", "@)
        + " | notify: "@ + notification_summary_text(notification)
}

pub open spec fn series_notification_content(s: RecurringSeries) -> Option<Seq<char>> {
    match s.notification {
        Some(n) => Some(n.content@),
        None => None,
    }
}

pub fn series_line(s: &RecurringSeries) -> (r: String)
    ensures
        r@ == series_line_text(
            s.id@,
            s.title@,
            s.when@,
            s.next_post_at,
            strings_view(s.choices@),
            series_notification_content(*s),
        ),
{
    let mut r = String::new();
    append_str(&mut r, "`");
    append_str(&mut r, s.id.as_str());
    append_str(&mut r, "`: ");
    append_str(&mut r, s.title.as_str());
    append_str(&mut r, " | when: ");
    append_str(&mut r, series_when_summary(s.when.as_str()).as_str());
    append_str(&mut r, " | next post ");
    append_str(&mut r, format_discord_time(s.next_post_at).as_str());
    append_str(&mut r, " | choices: ");
    append_str(&mut r, join_strings(&s.choices, ", ").as_str());
    append_str(&mut r, " | notify: ");
    let summary = match &s.notification {
        Some(n) => series_notification_summary(Some(n)),
        None => series_notification_summary(None),
    };
    append_str(&mut r, summary.as_str());
    r
}

/// The `/series_list` reply: one line per active series, or a note that
/// there are none.
pub fn series_list_body(series: &Vec<RecurringSeries>) -> (r: String)
    ensures
        series@.len() == 0 ==> r@ == "No recurring event series are active."@,
        series@.len() > 0 ==> r@ == join_with(
            series@.map_values(
                |s: RecurringSeries|
                    series_line_text(
                        s.id@,
                        s.title@,
                        s.when@,
                        s.next_post_at,
                        strings_view(s.choices@),
                        series_notification_content(s),
                    ),
            ),
            "\n"@,
        ),
{
    if series.len() == 0 {
        return crate::validation::str_to_string("No recurring event series are active.");
    }
    let mut lines: Vec<String> = Vec::new();
    let mut i: usize = 0;
    while i < series.len()
        invariant
            i <= series@.len(),
            lines@.len() == i,
            forall|k: int|
                0 <= k < i ==> (#[trigger] lines@[k])@ == series_line_text(
                    series@[k].id@,
                    series@[k].title@,
                    series@[k].when@,
                    series@[k].next_post_at,
                    strings_view(series@[k].choices@),
                    series_notification_content(series@[k]),
                ),
        decreases series@.len() - i,
    {
        lines.push(series_line(&series[i]));
        i += 1;
    }
    assert(strings_view(lines@) =~= series@.map_values(
        |s: RecurringSeries|
            series_line_text(
                s.id@,
                s.title@,
                s.when@,
                s.next_post_at,
                strings_view(s.choices@),
                series_notification_content(s),
            ),
    ));
    join_strings(&lines, "\n")
}

pub open spec fn series_delete_reply_text(deleted: bool, id: Seq<char>) -> Seq<char> {
    if deleted {
        "Stopped recurring series `"@ + id + "`."@
    } else {
        "I could not find an active recurring series named `"@ + id + "`."@
    }
}

/// The `/series_delete` reply.
pub fn series_delete_reply(deleted: bool, id: &str) -> (r: String)
    ensures
        r@ == series_delete_reply_text(deleted, id@),
{
    let mut r = String::new();
    if deleted {
        append_str(&mut r, "Stopped recurring series `");
    } else {
        append_str(&mut r, "I could not find an active recurring series named `");
    }
    append_str(&mut r, id);
    append_str(&mut r, "`.");
    r
}

pub open spec fn easter_delete_reply_text(deleted: bool, id: Seq<char>) -> Seq<char> {
    if deleted {
        "Deleted easter egg message `"@ + id + "`."@
    } else {
        "I could not find an easter egg message with ID `"@ + id + "`."@
    }
}

/// The `/easter_delete_message` reply.
pub fn easter_delete_reply(deleted: bool, id: &str) -> (r: String)
    ensures
        r@ == easter_delete_reply_text(deleted, id@),
{
    let mut r = String::new();
    if deleted {
        append_str(&mut r, "Deleted easter egg message `");
    } else {
        append_str(&mut r, "I could not find an easter egg message with ID `");
    }
    append_str(&mut r, id);
    append_str(&mut r, "`.");
    r
}

/// The `/easter_disable` reply.
pub fn easter_disable_reply(disabled: bool) -> (r: String)
    ensures
        r@ == (if disabled {
            "Easter egg disabled."@
        } else {
            "Easter egg is not configured."@
        }),
{
    if disabled {
        crate::validation::str_to_string("Easter egg disabled.")
    } else {
        crate::validation::str_to_string("Easter egg is not configured.")
    }
}

/// The reply after a one-off poll is posted: a link to its message.
pub fn poll_created_reply(guild_id: u64, channel_id: u64, message_id: u64) -> (r: String)
    ensures
        r@ == "Created event poll: https://discord.com/channels/"@ + decimal(guild_id as nat)
            + "/"@ + decimal(channel_id as nat) + "/"@ + decimal(message_id as nat),
{
    let mut r = String::new();
    append_str(&mut r, "Created event poll: https://discord.com/channels/");
    push_decimal(&mut r, guild_id);
    append_str(&mut r, "/");
    push_decimal(&mut r, channel_id);
    append_str(&mut r, "/");
    push_decimal(&mut r, message_id);
    r
}

/// The reply after a recurring series is saved.
pub fn series_saved_reply(title: &str, next_post_at: UtcTimestamp) -> (r: String)
    ensures
        r@ == "Saved recurring event `"@ + title@ + "`. First poll posts at "@ + discord_time_text(
            next_post_at,
        ) + "."@,
{
    let mut r = String::new();
    append_str(&mut r, "Saved recurring event `");
    append_str(&mut r, title);
    append_str(&mut r, "`. First poll posts at ");
    append_str(&mut r, format_discord_time(next_post_at).as_str());
    append_str(&mut r, ".");
    r
}

proof fn lemma_first_occurrences_distinct(items: Seq<Seq<char>>)
    ensures
        first_occurrences(items).no_duplicates(),
        forall|x: Seq<char>| #[trigger] first_occurrences(items).contains(x) ==> items.contains(x),
    decreases items.len(),
{
    if items.len() > 0 {
        let p = items.drop_last();
        lemma_first_occurrences_distinct(p);
        assert forall|x: Seq<char>| #[trigger] first_occurrences(items).contains(x) implies items.contains(x) by {
            if first_occurrences(p).contains(x) {
                let k = choose|k: int| 0 <= k < p.len() && p[k] == x;
                assert(items[k] == x);
            } else {
                assert(items[items.len() - 1] == x);
            }
        }
    }
}

proof fn lemma_matching_items_match(items: Seq<Seq<char>>, typed: Seq<char>)
    ensures
        forall|x: Seq<char>|
            #[trigger] matching_items(items, typed).contains(x) ==> typed.len() == 0
                || contains_text(lowercase(x), typed),
    decreases items.len(),
{
    if items.len() > 0 {
        lemma_matching_items_match(items.drop_last(), typed);
        let m = matching_items(items.drop_last(), typed);
        assert forall|x: Seq<char>| #[trigger] matching_items(items, typed).contains(x) implies typed.len() == 0
            || contains_text(lowercase(x), typed) by {
            if m.contains(x) {
            } else {
                assert(x == items.last());
            }
        }
    }
}

proof fn lemma_matching_items_complete(items: Seq<Seq<char>>, typed: Seq<char>, x: Seq<char>)
    requires
        items.contains(x),
        typed.len() == 0 || contains_text(lowercase(x), typed),
    ensures
        matching_items(items, typed).contains(x),
    decreases items.len(),
{
    let p = items.drop_last();
    if items.last() == x {
        assert(matching_items(items, typed).last() == x);
    } else {
        let k = choose|k: int| 0 <= k < items.len() && items[k] == x;
        assert(k < p.len());
        assert(p[k] == x);
        lemma_matching_items_complete(p, typed, x);
        let m = matching_items(p, typed);
        let j = choose|j: int| 0 <= j < m.len() && m[j] == x;
        assert(matching_items(items, typed)[j] == x);
    }
}

proof fn lemma_first_occurrences_keep(items: Seq<Seq<char>>, x: Seq<char>)
    requires
        items.contains(x),
    ensures
        first_occurrences(items).contains(x),
    decreases items.len(),
{
    let p = items.drop_last();
    let d = first_occurrences(p);
    if items.last() == x {
        if !d.contains(x) {
            assert(d.push(x).last() == x);
            assert(d.push(x)[d.len() as int] == x);
        }
    } else {
        let k = choose|k: int| 0 <= k < items.len() && items[k] == x;
        assert(p[k] == x);
        lemma_first_occurrences_keep(p, x);
        let j = choose|j: int| 0 <= j < d.len() && d[j] == x;
        assert(first_occurrences(items)[j] == x);
    }
}

/// No item that holds the typed text is left out: every default or
/// remembered choice set whose lowercase form holds the trimmed, lowercased
/// typed text is suggested, unless the list is already full.
pub proof fn law_suggestions_are_complete(typed: Seq<char>, history: Seq<Seq<char>>, x: Seq<char>)
    ensures
        (seq!["yes, no, maybe"@] + history).contains(x) && (lowercase(trim(typed)).len() == 0
            || contains_text(lowercase(x), lowercase(trim(typed)))) ==> suggestions_for(
            typed,
            history,
        ).contains(x) || suggestions_for(typed, history).len() == MAX_SUGGESTIONS,
{
    let all = seq!["yes, no, maybe"@] + history;
    let t = lowercase(trim(typed));
    if all.contains(x) && (t.len() == 0 || contains_text(lowercase(x), t)) {
        lemma_matching_items_complete(all, t, x);
        lemma_first_occurrences_keep(matching_items(all, t), x);
    }
}

/// The suggestions offered while typing are at most twenty-five, never
/// repeat, and each holds the typed text (ignoring case and surrounding
/// white space).
pub proof fn law_suggestions_are_relevant(typed: Seq<char>, history: Seq<Seq<char>>)
    ensures
        suggestions_for(typed, history).len() <= MAX_SUGGESTIONS,
        suggestions_for(typed, history).no_duplicates(),
        forall|x: Seq<char>|
            #[trigger] suggestions_for(typed, history).contains(x) ==> lowercase(trim(typed)).len()
                == 0 || contains_text(lowercase(x), lowercase(trim(typed))),
{
    let all = seq!["yes, no, maybe"@] + history;
    let t = lowercase(trim(typed));
    let m = matching_items(all, t);
    let d = first_occurrences(m);
    lemma_first_occurrences_distinct(m);
    lemma_matching_items_match(all, t);
    let s = suggestions_for(typed, history);
    assert forall|x: Seq<char>| #[trigger] s.contains(x) implies t.len() == 0 || contains_text(
        lowercase(x),
        t,
    ) by {
        let k = choose|k: int| 0 <= k < s.len() && s[k] == x;
        assert(d[k] == x);
        assert(d.contains(x));
        assert(m.contains(x));
    }
    assert forall|a: int, b: int| 0 <= a < s.len() && 0 <= b < s.len() && a != b implies s[a] != s[b] by {
        assert(s[a] == d[a] && s[b] == d[b]);
    }
}

proof fn lemma_collect_distinct(tokens: Seq<Seq<char>>)
    ensures
        collect_mentions(tokens) matches Some((users, roles)) ==> users.no_duplicates()
            && roles.no_duplicates(),
    decreases tokens.len(),
{
    if tokens.len() > 0 {
        lemma_collect_distinct(tokens.drop_last());
    }
}

/// A token mentions no user and no role.
pub open spec fn not_a_mention(t: Seq<char>) -> bool {
    user_mention_id(t) is None && role_mention_id(t) is None
}

/// `x` is the user a token mentions.
pub open spec fn mentions_user(t: Seq<char>, x: u64) -> bool {
    user_mention_id(t) == Some(x as nat)
}

/// `x` is the role a token mentions, the token not being a user mention.
pub open spec fn mentions_role(t: Seq<char>, x: u64) -> bool {
    user_mention_id(t) is None && role_mention_id(t) == Some(x as nat)
}

proof fn lemma_mentions_split(tokens: Seq<Seq<char>>, x: u64)
    requires
        tokens.len() > 0,
    ensures
        (exists|k: int| 0 <= k < tokens.len() && mentions_user(#[trigger] tokens[k], x)) <==> (
        (exists|k: int|
            0 <= k < tokens.drop_last().len() && mentions_user(#[trigger] tokens.drop_last()[k], x))
            || mentions_user(tokens.last(), x)),
        (exists|k: int| 0 <= k < tokens.len() && mentions_role(#[trigger] tokens[k], x)) <==> (
        (exists|k: int|
            0 <= k < tokens.drop_last().len() && mentions_role(#[trigger] tokens.drop_last()[k], x))
            || mentions_role(tokens.last(), x)),
{
    let p = tokens.drop_last();
    let n = tokens.len() - 1;
    assert(tokens[n] == tokens.last());
    if exists|k: int| 0 <= k < tokens.len() && mentions_user(#[trigger] tokens[k], x) {
        let k = choose|k: int| 0 <= k < tokens.len() && mentions_user(#[trigger] tokens[k], x);
        if k < n {
            assert(mentions_user(p[k], x));
        }
    }
    if exists|k: int| 0 <= k < p.len() && mentions_user(#[trigger] p[k], x) {
        let k = choose|k: int| 0 <= k < p.len() && mentions_user(#[trigger] p[k], x);
        assert(mentions_user(tokens[k], x));
    }
    if exists|k: int| 0 <= k < tokens.len() && mentions_role(#[trigger] tokens[k], x) {
        let k = choose|k: int| 0 <= k < tokens.len() && mentions_role(#[trigger] tokens[k], x);
        if k < n {
            assert(mentions_role(p[k], x));
        }
    }
    if exists|k: int| 0 <= k < p.len() && mentions_role(#[trigger] p[k], x) {
        let k = choose|k: int| 0 <= k < p.len() && mentions_role(#[trigger] p[k], x);
        assert(mentions_role(tokens[k], x));
    }
}

proof fn lemma_collect_exact(tokens: Seq<Seq<char>>)
    ensures
        (collect_mentions(tokens) is None) <==> exists|k: int|
            0 <= k < tokens.len() && not_a_mention(#[trigger] tokens[k]),
        collect_mentions(tokens) matches Some((users, roles)) ==> {
            &&& forall|x: u64|
                #![trigger users.contains(x)]
                users.contains(x) <==> exists|k: int|
                    0 <= k < tokens.len() && mentions_user(#[trigger] tokens[k], x)
            &&& forall|x: u64|
                #![trigger roles.contains(x)]
                roles.contains(x) <==> exists|k: int|
                    0 <= k < tokens.len() && mentions_role(#[trigger] tokens[k], x)
            &&& (users.len() + roles.len() == 0 <==> tokens.len() == 0)
        },
    decreases tokens.len(),
{
    if tokens.len() > 0 {
        let p = tokens.drop_last();
        let n = tokens.len() - 1;
        let t = tokens.last();
        lemma_collect_exact(p);
        assert(tokens[n] == t);
        assert forall|k: int| 0 <= k < p.len() implies p[k] == tokens[k] by {}
        match collect_mentions(p) {
            None => {
                let k = choose|k: int| 0 <= k < p.len() && not_a_mention(#[trigger] p[k]);
                assert(not_a_mention(tokens[k]));
            },
            Some((users, roles)) => {
                if not_a_mention(t) {
                    assert(not_a_mention(tokens[n]));
                } else {
                    assert forall|k: int| 0 <= k < tokens.len() implies !not_a_mention(
                        #[trigger] tokens[k],
                    ) by {
                        if k < n {
                            assert(tokens[k] == p[k]);
                        }
                    }
                    let (u2, r2) = collect_mentions(tokens)->0;
                    match user_mention_id(t) {
                        Some(id) => {
                            let x0 = id as u64;
                            assert(x0 as nat == id);
                            assert(r2 == roles);
                            assert(u2 == (if users.contains(x0) {
                                users
                            } else {
                                users.push(x0)
                            }));
                            assert forall|x: u64| #![trigger u2.contains(x)] u2.contains(x)
                                <==> exists|k: int|
                                0 <= k < tokens.len() && mentions_user(#[trigger] tokens[k], x) by {
                                lemma_mentions_split(tokens, x);
                                assert(mentions_user(t, x) <==> x == x0);
                                if !users.contains(x0) {
                                    assert(u2.contains(x) <==> (users.contains(x) || x == x0)) by {
                                        assert(u2 == users.push(x0));
                                        if users.contains(x) {
                                            let k = choose|k: int| 0 <= k < users.len() && users[k] == x;
                                            assert(u2[k] == x);
                                        }
                                        if x == x0 {
                                            assert(u2[users.len() as int] == x0);
                                        }
                                        if u2.contains(x) {
                                            let k = choose|k: int| 0 <= k < u2.len() && u2[k] == x;
                                            if k < users.len() {
                                                assert(users[k] == x);
                                            }
                                        }
                                    }
                                }
                            }
                            assert forall|x: u64| #![trigger r2.contains(x)] r2.contains(x)
                                <==> exists|k: int|
                                0 <= k < tokens.len() && mentions_role(#[trigger] tokens[k], x) by {
                                lemma_mentions_split(tokens, x);
                                assert(!mentions_role(t, x));
                            }
                        },
                        None => {
                            let id = role_mention_id(t)->0;
                            let x0 = id as u64;
                            assert(x0 as nat == id);
                            assert(u2 == users);
                            assert(r2 == (if roles.contains(x0) {
                                roles
                            } else {
                                roles.push(x0)
                            }));
                            assert forall|x: u64| #![trigger r2.contains(x)] r2.contains(x)
                                <==> exists|k: int|
                                0 <= k < tokens.len() && mentions_role(#[trigger] tokens[k], x) by {
                                lemma_mentions_split(tokens, x);
                                assert(mentions_role(t, x) <==> x == x0);
                                if !roles.contains(x0) {
                                    assert(r2.contains(x) <==> (roles.contains(x) || x == x0)) by {
                                        assert(r2 == roles.push(x0));
                                        if roles.contains(x) {
                                            let k = choose|k: int| 0 <= k < roles.len() && roles[k] == x;
                                            assert(r2[k] == x);
                                        }
                                        if x == x0 {
                                            assert(r2[roles.len() as int] == x0);
                                        }
                                        if r2.contains(x) {
                                            let k = choose|k: int| 0 <= k < r2.len() && r2[k] == x;
                                            if k < roles.len() {
                                                assert(roles[k] == x);
                                            }
                                        }
                                    }
                                }
                            }
                            assert forall|x: u64| #![trigger u2.contains(x)] u2.contains(x)
                                <==> exists|k: int|
                                0 <= k < tokens.len() && mentions_user(#[trigger] tokens[k], x) by {
                                lemma_mentions_split(tokens, x);
                                assert(!mentions_user(t, x));
                            }
                        },
                    }
                }
            },
        }
    }
}

/// The users the tokens mention, in token order, repeats kept.
pub open spec fn user_ids(tokens: Seq<Seq<char>>) -> Seq<u64>
    decreases tokens.len(),
{
    if tokens.len() == 0 {
        Seq::empty()
    } else {
        match user_mention_id(tokens.last()) {
            Some(id) => user_ids(tokens.drop_last()).push(id as u64),
            None => user_ids(tokens.drop_last()),
        }
    }
}

/// The roles the tokens mention (a token that mentions a user mentions no
/// role), in token order, repeats kept.
pub open spec fn role_ids(tokens: Seq<Seq<char>>) -> Seq<u64>
    decreases tokens.len(),
{
    if tokens.len() == 0 {
        Seq::empty()
    } else {
        match (user_mention_id(tokens.last()), role_mention_id(tokens.last())) {
            (None, Some(id)) => role_ids(tokens.drop_last()).push(id as u64),
            _ => role_ids(tokens.drop_last()),
        }
    }
}

proof fn lemma_collect_order(tokens: Seq<Seq<char>>)
    ensures
        collect_mentions(tokens) matches Some((users, roles)) ==> users == first_occurrences(
            user_ids(tokens),
        ) && roles == first_occurrences(role_ids(tokens)),
    decreases tokens.len(),
{
    if tokens.len() > 0 {
        let p = tokens.drop_last();
        let t = tokens.last();
        lemma_collect_order(p);
        let us = user_ids(p);
        let rs = role_ids(p);
        match user_mention_id(t) {
            Some(id) => {
                assert(us.push(id as u64).drop_last() =~= us);
            },
            None => match role_mention_id(t) {
                Some(id) => {
                    assert(rs.push(id as u64).drop_last() =~= rs);
                },
                None => {},
            },
        }
    }
}

/// The tokens of the `notify` option: its trimmed text split at white space
/// and commas.
pub open spec fn notify_tokens(value: Option<Seq<char>>) -> Seq<Seq<char>> {
    match value {
        Some(v) => words(commas_as_spaces(trim(v))),
        None => Seq::empty(),
    }
}

/// The `notify` option is refused exactly when one of its tokens (split at
/// white space and commas) mentions neither a user nor a role; it gives no
/// notification exactly when it has no token; otherwise the notification
/// pings exactly the users and the roles its tokens mention, each once, in
/// the order of their first mention.
pub proof fn law_notification_exact(value: Option<Seq<char>>)
    ensures
        (notification_outcome(value) is Err) <==> exists|k: int|
            0 <= k < notify_tokens(value).len() && not_a_mention(#[trigger] notify_tokens(value)[k]),
        (notification_outcome(value) == Ok::<Option<(Seq<u64>, Seq<u64>)>, NotificationError>(
            None,
        )) <==> notify_tokens(value).len() == 0,
        notification_outcome(value) matches Ok(Some((users, roles))) ==> {
            &&& users == first_occurrences(user_ids(notify_tokens(value)))
            &&& roles == first_occurrences(role_ids(notify_tokens(value)))
            &&& users.no_duplicates()
            &&& roles.no_duplicates()
            &&& forall|x: u64|
                #![trigger users.contains(x)]
                users.contains(x) <==> exists|k: int|
                    0 <= k < notify_tokens(value).len() && mentions_user(
                        #[trigger] notify_tokens(value)[k],
                        x,
                    )
            &&& forall|x: u64|
                #![trigger roles.contains(x)]
                roles.contains(x) <==> exists|k: int|
                    0 <= k < notify_tokens(value).len() && mentions_role(
                        #[trigger] notify_tokens(value)[k],
                        x,
                    )
        },
{
    if let Some(v) = value {
        let tokens = words(commas_as_spaces(trim(v)));
        lemma_collect_exact(tokens);
        lemma_collect_distinct(tokens);
        lemma_collect_order(tokens);
        if trim(v).len() == 0 {
            assert(commas_as_spaces(trim(v)) =~= Seq::<char>::empty());
            assert(tokens.len() == 0);
            assert(notification_outcome(value) == Ok::<
                Option<(Seq<u64>, Seq<u64>)>,
                NotificationError,
            >(None));
        } else {
            match collect_mentions(tokens) {
                None => {
                    assert(notification_outcome(value) is Err);
                },
                Some((users, roles)) => {
                    assert(notification_outcome(value) is Ok);
                },
            }
        }
    } else {
        let tokens = Seq::<Seq<char>>::empty();
        assert(!(exists|k: int| 0 <= k < tokens.len() && not_a_mention(#[trigger] tokens[k])));
    }
}

/// A notification pings each user and each role once.
pub proof fn law_notification_pings_once(value: Option<Seq<char>>)
    ensures
        notification_outcome(value) matches Ok(Some((users, roles))) ==> users.no_duplicates()
            && roles.no_duplicates() && users.len() + roles.len() > 0,
{
    if let Some(v) = value {
        lemma_collect_distinct(words(commas_as_spaces(trim(v))));
    }
}

// ---------------------------------------------------------------------------
// Command options
// ---------------------------------------------------------------------------

/// Why a command's options were refused.
#[derive(Debug)]
pub enum CommandInputError {
    Text(ValidationError),
    Choices(ChoicesError),
    Notify(NotificationError),
    /// The schedule could not be read, or has no next instant.
    Schedule { schedule: String, error: RecurrenceError },
}

pub enum CommandInputFailure {
    Text(ValidationFailure),
    Choices(ChoicesFailure),
    Notify(NotificationError),
    Schedule { schedule: Seq<char>, error: RecurrenceError },
}

impl View for CommandInputError {
    type V = CommandInputFailure;

    open spec fn view(&self) -> CommandInputFailure {
        match self {
            CommandInputError::Text(e) => CommandInputFailure::Text(e@),
            CommandInputError::Choices(e) => CommandInputFailure::Choices(e@),
            CommandInputError::Notify(e) => CommandInputFailure::Notify(*e),
            CommandInputError::Schedule { schedule, error } => CommandInputFailure::Schedule {
                schedule: schedule@,
                error: *error,
            },
        }
    }
}

impl CommandInputFailure {
    /// The text shown to the user.
    pub open spec fn message(self) -> Seq<char> {
        match self {
            CommandInputFailure::Text(e) => e.message(),
            CommandInputFailure::Choices(e) => e.message(),
            CommandInputFailure::Notify(e) => e.message_text(),
            CommandInputFailure::Schedule { schedule, .. } => "could not parse schedule '"@
                + schedule + "'"@,
        }
    }
}

impl CommandInputError {
    pub fn message(&self) -> (m: String)
        ensures
            m@ == self@.message(),
    {
        match self {
            CommandInputError::Text(e) => e.message(),
            CommandInputError::Choices(e) => e.message(),
            CommandInputError::Notify(e) => e.message(),
            CommandInputError::Schedule { schedule, .. } => {
                let mut m = String::new();
                append_str(&mut m, "could not parse schedule '");
                append_str(&mut m, schedule.as_str());
                append_str(&mut m, "'");
                m
            },
        }
    }
}

pub open spec fn option_view(o: Option<String>) -> Option<Seq<char>> {
    match o {
        Some(s) => Some(s@),
        None => None,
    }
}

/// A notification holds exactly the users and roles that were read, and
/// the text that pings them; no notification when none were read.
pub open spec fn notification_is(
    n: Option<PollNotification>,
    read: Option<(Seq<u64>, Seq<u64>)>,
) -> bool {
    match read {
        None => n is None,
        Some((users, roles)) => n matches Some(x) && x.user_ids@ == users && x.role_ids@ == roles
            && x.content@ == notification_content(users, roles),
    }
}

/// What the `description` option gives once cleaned.
pub open spec fn description_outcome(d: Option<Seq<char>>) -> Result<
    Option<Seq<char>>,
    ValidationFailure,
> {
    match d {
        None => Ok(None),
        Some(v) => match clean_text_outcome(v, "description"@, MAX_DESCRIPTION_LEN as nat) {
            Ok(s) => Ok(Some(s)),
            Err(e) => Err(e),
        },
    }
}

/// What the `where` option gives once cleaned.
pub open spec fn location_outcome(d: Option<Seq<char>>) -> Result<
    Option<Seq<char>>,
    ValidationFailure,
> {
    match d {
        None => Ok(None),
        Some(v) => match clean_text_outcome(v, "location"@, MAX_LOCATION_LEN as nat) {
            Ok(s) => Ok(Some(s)),
            Err(e) => Err(e),
        },
    }
}

/// A one-off poll made from `/event single`, and whom it notifies.
#[derive(Debug)]
pub struct SingleEvent {
    pub poll: NewPoll,
    pub notification: Option<PollNotification>,
}

/// Checks the options of `/event single` in the order title, description,
/// when, where, choices, notify, and makes the poll from them.
pub fn single_event(
    title: String,
    when: String,
    choices: &str,
    location: Option<String>,
    description: Option<String>,
    notify: Option<String>,
    channel_id: u64,
    created_by: u64,
    created_by_name: String,
) -> (r: Result<SingleEvent, CommandInputError>)
    ensures
        match clean_text_outcome(title@, "title"@, MAX_TITLE_LEN as nat) {
            Err(e) => r matches Err(x) && x@ == CommandInputFailure::Text(e),
            Ok(t) => match description_outcome(option_view(description)) {
                Err(e) => r matches Err(x) && x@ == CommandInputFailure::Text(e),
                Ok(d) => match clean_text_outcome(when@, "when"@, MAX_WHEN_LEN as nat) {
                    Err(e) => r matches Err(x) && x@ == CommandInputFailure::Text(e),
                    Ok(w) => match location_outcome(option_view(location)) {
                        Err(e) => r matches Err(x) && x@ == CommandInputFailure::Text(e),
                        Ok(l) => match parse_choices_outcome(choices@) {
                            Err(e) => r matches Err(x) && x@ == CommandInputFailure::Choices(e),
                            Ok(cs) => match notification_outcome(option_view(notify)) {
                                Err(e) => r matches Err(x) && x@ == CommandInputFailure::Notify(
                                    e,
                                ),
                                Ok(n) => r matches Ok(ev) && {
                                    let p = ev.poll;
                                    &&& p.title@ == t
                                    &&& option_view(p.description) == d
                                    &&& option_view(p.when) == Some(w)
                                    &&& option_view(p.location) == l
                                    &&& strings_view(p.choices@) == cs
                                    &&& p.channel_id == channel_id
                                    &&& p.recurring_id is None
                                    &&& p.created_by == created_by
                                    &&& p.created_by_name == created_by_name
                                    &&& notification_is(ev.notification, n)
                                },
                            },
                        },
                    },
                },
            },
        },
{
    let title = match poll_title(title) {
        Ok(t) => t,
        Err(e) => return Err(CommandInputError::Text(e)),
    };
    let description = match optional_description(description) {
        Ok(d) => d,
        Err(e) => return Err(CommandInputError::Text(e)),
    };
    let when = match optional_when(Some(when)) {
        Ok(w) => w,
        Err(e) => return Err(CommandInputError::Text(e)),
    };
    let location = match optional_location(location) {
        Ok(l) => l,
        Err(e) => return Err(CommandInputError::Text(e)),
    };
    let choices = match parse_choices(choices) {
        Ok(c) => c,
        Err(e) => return Err(CommandInputError::Choices(e)),
    };
    let notification = match parse_notification(notify) {
        Ok(n) => n,
        Err(e) => return Err(CommandInputError::Notify(e)),
    };
    let poll = NewPoll {
        title,
        description,
        when,
        location,
        choices,
        channel_id,
        recurring_id: None,
        created_by,
        created_by_name,
    };
    Ok(SingleEvent { poll, notification })
}

/// The options of `/event recurring`, checked and cleaned.
#[derive(Debug)]
pub struct SeriesOptions {
    pub title: String,
    pub when: String,
    pub location: Option<String>,
    pub choices: Vec<String>,
    pub notification: Option<PollNotification>,
}

/// Checks the options of `/event recurring` in the order title, when,
/// where, choices, notify.
pub fn series_options(
    title: String,
    when: String,
    choices: &str,
    location: Option<String>,
    notify: Option<String>,
) -> (r: Result<SeriesOptions, CommandInputError>)
    ensures
        match clean_text_outcome(title@, "title"@, MAX_TITLE_LEN as nat) {
            Err(e) => r matches Err(x) && x@ == CommandInputFailure::Text(e),
            Ok(t) => match clean_text_outcome(when@, "when"@, MAX_WHEN_LEN as nat) {
                Err(e) => r matches Err(x) && x@ == CommandInputFailure::Text(e),
                Ok(w) => match location_outcome(option_view(location)) {
                    Err(e) => r matches Err(x) && x@ == CommandInputFailure::Text(e),
                    Ok(l) => match parse_choices_outcome(choices@) {
                        Err(e) => r matches Err(x) && x@ == CommandInputFailure::Choices(e),
                        Ok(cs) => match notification_outcome(option_view(notify)) {
                            Err(e) => r matches Err(x) && x@ == CommandInputFailure::Notify(e),
                            Ok(n) => r matches Ok(o) && o.title@ == t && o.when@ == w
                                && option_view(o.location) == l && strings_view(o.choices@) == cs
                                && notification_is(o.notification, n),
                        },
                    },
                },
            },
        },
{
    let title = match poll_title(title) {
        Ok(t) => t,
        Err(e) => return Err(CommandInputError::Text(e)),
    };
    let when = match optional_when(Some(when)) {
        Ok(Some(w)) => w,
        Ok(None) => {
            // A given value is either refused or cleaned; never dropped.
            assert(false);
            return Err(CommandInputError::Text(ValidationError::Empty { field: str_to_string("when") }));
        },
        Err(e) => return Err(CommandInputError::Text(e)),
    };
    let location = match optional_location(location) {
        Ok(l) => l,
        Err(e) => return Err(CommandInputError::Text(e)),
    };
    let choices = match parse_choices(choices) {
        Ok(c) => c,
        Err(e) => return Err(CommandInputError::Choices(e)),
    };
    let notification = match parse_notification(notify) {
        Ok(n) => n,
        Err(e) => return Err(CommandInputError::Notify(e)),
    };
    Ok(SeriesOptions { title, when, location, choices, notification })
}

/// The series that checked options make: its first post is the schedule's
/// first instant after `now` in the zone named `timezone`.
pub fn new_series(
    options: SeriesOptions,
    schedule: String,
    timezone: &str,
    channel_id: u64,
    created_by: u64,
    created_by_name: String,
    now: UtcTimestamp,
) -> (r: Result<NewRecurringSeries, CommandInputError>)
    requires
        in_calendar_range(now),
    ensures
        match r {
            Ok(s) => {
                &&& parse_outcome(schedule@) matches Ok(rec) && next_after_outcome(
                    rec,
                    timezone@,
                    now,
                    Ok(s.next_post_at),
                )
                &&& !not_later(s.next_post_at, now)
                &&& s.title == options.title
                &&& s.description is None
                &&& s.schedule == schedule
                &&& s.when == options.when
                &&& s.location == options.location
                &&& s.timezone@ == timezone@
                &&& s.choices == options.choices
                &&& s.notification == options.notification
                &&& s.channel_id == channel_id
                &&& s.created_by == created_by
                &&& s.created_by_name == created_by_name
            },
            Err(e) => e matches CommandInputError::Schedule { schedule: text, error } && text
                == schedule && match parse_outcome(schedule@) {
                Err(pe) => error == pe,
                Ok(rec) => next_after_outcome(rec, timezone@, now, Err(error)),
            },
        },
{
    let next_post_at = match next_occurrence(schedule.as_str(), timezone, now) {
        Ok(t) => t,
        Err(error) => return Err(CommandInputError::Schedule { schedule, error }),
    };
    Ok(NewRecurringSeries {
        title: options.title,
        description: None,
        schedule,
        when: options.when,
        location: options.location,
        timezone: str_to_string(timezone),
        choices: options.choices,
        notification: options.notification,
        channel_id,
        created_by,
        created_by_name,
        next_post_at,
    })
}

// ---------------------------------------------------------------------------
// Easter egg commands
// ---------------------------------------------------------------------------

pub open spec fn easter_set_first_text() -> Seq<char> {
    "Use `/easter_set` first."@
}

/// What `/easter_add_message` does.
#[derive(Debug)]
pub enum EasterAddOutcome {
    /// Only a reply; nothing is stored.
    Reply(String),
    /// The message was refused.
    Invalid(ValidationError),
    /// The cleaned message is added to the pool.
    Add(String),
}

/// `/easter_add_message`: the easter egg must be set up and enabled; the
/// message is cleaned as text of at most 200 characters.
pub fn easter_add_outcome(settings: Option<EasterEggSettings>, message: String) -> (r:
    EasterAddOutcome)
    ensures
        match settings {
            None => r matches EasterAddOutcome::Reply(t) && t@ == easter_set_first_text(),
            Some(s) => if !s.enabled {
                r matches EasterAddOutcome::Reply(t) && t@
                    == "The easter egg is disabled. Use `/easter_set` first."@
            } else {
                match clean_text_outcome(message@, "easter egg message"@, 200) {
                    Ok(c) => r matches EasterAddOutcome::Add(m) && m@ == c,
                    Err(e) => r matches EasterAddOutcome::Invalid(x) && x@ == e,
                }
            },
        },
{
    match settings {
        None => EasterAddOutcome::Reply(str_to_string("Use `/easter_set` first.")),
        Some(s) => if !s.enabled {
            EasterAddOutcome::Reply(
                str_to_string("The easter egg is disabled. Use `/easter_set` first."),
            )
        } else {
            match clean_text(message, "easter egg message", 200) {
                Ok(m) => EasterAddOutcome::Add(m),
                Err(e) => EasterAddOutcome::Invalid(e),
            }
        },
    }
}

/// What `/easter_test` does.
#[derive(Debug)]
pub enum EasterTestOutcome {
    /// Only a reply.
    Reply(String),
    /// This text is posted in the channel, and may ping only the target.
    Send { content: String, target_user_id: u64 },
}

/// `/easter_test`: one of the messages, picked at random, tagging the
/// target; a reply instead when the easter egg is not set up or has no
/// messages.
pub fn easter_test_outcome(settings: Option<EasterEggSettings>, messages: &Vec<String>) -> (r:
    EasterTestOutcome)
    ensures
        match settings {
            None => r matches EasterTestOutcome::Reply(t) && t@ == easter_set_first_text(),
            Some(s) => if messages@.len() == 0 {
                r matches EasterTestOutcome::Reply(t) && t@
                    == "No easter egg messages are configured. Use `/easter_add_message` first."@
            } else {
                r matches EasterTestOutcome::Send { content, target_user_id } && target_user_id
                    == s.target_user_id && exists|i: int|
                    0 <= i < messages@.len() && content@ == taunt_text(
                        s.target_user_id,
                        #[trigger] messages@[i]@,
                    )
            },
        },
{
    match settings {
        None => EasterTestOutcome::Reply(str_to_string("Use `/easter_set` first.")),
        Some(s) => match choose_message(messages) {
            None => EasterTestOutcome::Reply(
                str_to_string(
                    "No easter egg messages are configured. Use `/easter_add_message` first.",
                ),
            ),
            Some(m) => {
                let ghost i = choose|i: int| 0 <= i < messages@.len() && messages@[i] == m;
                let c = format_taunt_message(s.target_user_id, m.as_str());
                assert(c@ == taunt_text(s.target_user_id, messages@[i]@));
                EasterTestOutcome::Send { content: c, target_user_id: s.target_user_id }
            },
        },
    }
}

// ---------------------------------------------------------------------------
// Setting up the easter egg
// ---------------------------------------------------------------------------

/// The earliest minute of the day at which the window may open: the day's
/// roll is made at 04:00.
pub const EARLIEST_WINDOW_MINUTE: u16 = 240;

/// The minute of the day of a time.
pub open spec fn minute_of_day(t: TimeOfDay) -> int {
    60 * t.hour + t.minute
}

/// A minute of the day as `HH:MM`.
pub open spec fn clock_text(minute: int) -> Seq<char> {
    zero_padded((minute / 60) as nat, 2) + ":"@ + zero_padded((minute % 60) as nat, 2)
}

/// A minute of the day as `HH:MM`.
pub fn format_time(minute: u16) -> (r: String)
    ensures
        r@ == clock_text(minute as int),
{
    let mut r = String::new();
    push_zero_padded(&mut r, (minute / 60) as u64, 2);
    append_str(&mut r, ":");
    push_zero_padded(&mut r, (minute % 60) as u64, 2);
    r
}

/// Why `/easter_set` refused its options.
#[derive(Debug)]
pub enum EasterSetError {
    StartTime,
    EndTime,
    StartTooEarly,
    EndBeforeStart,
    Message(ValidationError),
}

impl EasterSetError {
    pub open spec fn message_text(&self) -> Seq<char> {
        match self {
            EasterSetError::StartTime => "start_time must be HH:MM, for example 09:00"@,
            EasterSetError::EndTime => "end_time must be HH:MM, for example 22:00"@,
            EasterSetError::StartTooEarly => "start_time must be 04:00 or later"@,
            EasterSetError::EndBeforeStart => "end_time must not be before start_time"@,
            EasterSetError::Message(e) => e@.message(),
        }
    }

    pub fn message(&self) -> (m: String)
        ensures
            m@ == self.message_text(),
    {
        match self {
            EasterSetError::StartTime => str_to_string("start_time must be HH:MM, for example 09:00"),
            EasterSetError::EndTime => str_to_string("end_time must be HH:MM, for example 22:00"),
            EasterSetError::StartTooEarly => str_to_string("start_time must be 04:00 or later"),
            EasterSetError::EndBeforeStart => str_to_string(
                "end_time must not be before start_time",
            ),
            EasterSetError::Message(e) => e.message(),
        }
    }
}

/// The `/easter_set` reply.
pub open spec fn easter_set_reply_text(target: u64, channel: u64, start: int, end: int) -> Seq<
    char,
> {
    "Easter egg enabled for <@"@ + decimal(target as nat) + "> in <#"@ + decimal(channel as nat)
        + ">. Daily roll is at 04:00; on an 11, I will post between "@ + clock_text(start)
        + " and "@ + clock_text(end) + "."@
}

/// `/easter_set`: both times must read as `HH:MM`, the window may not open
/// before 04:00 nor close before it opens, and the first message is cleaned
/// as text of at most 200 characters. Gives the enabled settings, the
/// cleaned message and the reply.
pub fn easter_set_outcome(
    target_user_id: u64,
    channel_id: u64,
    start_time: &str,
    end_time: &str,
    message: String,
    updated_by: u64,
) -> (r: Result<(EasterEggSettings, String, String), EasterSetError>)
    ensures
        match hour_minute_parse(start_time@) {
            None => r matches Err(EasterSetError::StartTime),
            Some(st) => match hour_minute_parse(end_time@) {
                None => r matches Err(EasterSetError::EndTime),
                Some(et) => if minute_of_day(st) < EARLIEST_WINDOW_MINUTE {
                    r matches Err(EasterSetError::StartTooEarly)
                } else if minute_of_day(et) < minute_of_day(st) {
                    r matches Err(EasterSetError::EndBeforeStart)
                } else {
                    match clean_text_outcome(message@, "easter egg message"@, 200) {
                        Err(e) => r matches Err(EasterSetError::Message(x)) && x@ == e,
                        Ok(m) => r matches Ok((s, msg, reply)) && s == (EasterEggSettings {
                            enabled: true,
                            target_user_id,
                            channel_id,
                            window_start_minute: minute_of_day(st) as u16,
                            window_end_minute: minute_of_day(et) as u16,
                            updated_by,
                        }) && msg@ == m && reply@ == easter_set_reply_text(
                            target_user_id,
                            channel_id,
                            minute_of_day(st),
                            minute_of_day(et),
                        ),
                    }
                },
            },
        },
{
    let st = match parse_hour_minute(start_time) {
        Some(t) => t,
        None => return Err(EasterSetError::StartTime),
    };
    let et = match parse_hour_minute(end_time) {
        Some(t) => t,
        None => return Err(EasterSetError::EndTime),
    };
    let start = (60 * st.hour + st.minute) as u16;
    let end = (60 * et.hour + et.minute) as u16;
    if start < EARLIEST_WINDOW_MINUTE {
        return Err(EasterSetError::StartTooEarly);
    }
    if end < start {
        return Err(EasterSetError::EndBeforeStart);
    }
    let message = match clean_text(message, "easter egg message", 200) {
        Ok(m) => m,
        Err(e) => return Err(EasterSetError::Message(e)),
    };
    let settings = EasterEggSettings {
        enabled: true,
        target_user_id,
        channel_id,
        window_start_minute: start,
        window_end_minute: end,
        updated_by,
    };
    let mut reply = String::new();
    append_str(&mut reply, "Easter egg enabled for <@");
    push_decimal(&mut reply, target_user_id);
    append_str(&mut reply, "> in <#");
    push_decimal(&mut reply, channel_id);
    append_str(&mut reply, ">. Daily roll is at 04:00; on an 11, I will post between ");
    append_str(&mut reply, format_time(start).as_str());
    append_str(&mut reply, " and ");
    append_str(&mut reply, format_time(end).as_str());
    append_str(&mut reply, ".");
    Ok((settings, message, reply))
}

/// How many messages `/easter_status` shows.
pub const STATUS_PREVIEW: usize = 5;

/// A message's line in `/easter_status`.
pub open spec fn status_line(m: EasterEggMessage) -> Seq<char> {
    "- `"@ + m.id@ + "`: "@ + m.message@
}

/// The first messages, one a line.
pub open spec fn status_preview(messages: Seq<EasterEggMessage>) -> Seq<char> {
    let shown = if messages.len() <= STATUS_PREVIEW {
        messages
    } else {
        messages.take(STATUS_PREVIEW as int)
    };
    join_with(shown.map_values(|m: EasterEggMessage| status_line(m)), "\n"@)
}

/// The `/easter_status` reply: whether the easter egg is enabled, whom and
/// where it targets, its window, how many messages it has and the first
/// five of them.
pub open spec fn easter_status_text(
    settings: Option<EasterEggSettings>,
    messages: Seq<EasterEggMessage>,
) -> Seq<char> {
    match settings {
        None => "Easter egg is not configured."@,
        Some(s) => {
            let preview = status_preview(messages);
            "Easter egg is "@ + (if s.enabled {
                "enabled"@
            } else {
                "disabled"@
            }) + ".\nTarget: <@"@ + decimal(s.target_user_id as nat) + ">\nChannel: <#"@
                + decimal(s.channel_id as nat) + ">\nWindow: "@ + clock_text(
                s.window_start_minute as int,
            ) + "-"@ + clock_text(s.window_end_minute as int) + "\nMessages: "@ + decimal(
                messages.len(),
            ) + "\n"@ + (if preview.len() == 0 {
                "No messages configured."@
            } else {
                preview
            })
        },
    }
}

pub fn easter_status_reply(settings: Option<EasterEggSettings>, messages: &Vec<EasterEggMessage>) -> (r:
    String)
    ensures
        r@ == easter_status_text(settings, messages@),
{
    let s = match settings {
        None => return str_to_string("Easter egg is not configured."),
        Some(s) => s,
    };
    let count = if messages.len() <= STATUS_PREVIEW {
        messages.len()
    } else {
        STATUS_PREVIEW
    };
    let ghost shown = if messages@.len() <= STATUS_PREVIEW {
        messages@
    } else {
        messages@.take(STATUS_PREVIEW as int)
    };
    let mut lines: Vec<String> = Vec::new();
    let mut i: usize = 0;
    while i < count
        invariant
            count == shown.len(),
            count <= messages@.len(),
            shown == messages@.take(count as int),
            i <= count,
            lines@.len() == i,
            forall|k: int| 0 <= k < i ==> (#[trigger] lines@[k])@ == status_line(shown[k]),
        decreases count - i,
    {
        let m = &messages[i];
        let mut line = String::new();
        append_str(&mut line, "- `");
        append_str(&mut line, m.id.as_str());
        append_str(&mut line, "`: ");
        append_str(&mut line, m.message.as_str());
        lines.push(line);
        i += 1;
    }
    assert(strings_view(lines@) =~= shown.map_values(|m: EasterEggMessage| status_line(m)));
    let preview = join_strings(&lines, "\n");
    let mut r = String::new();
    append_str(&mut r, "Easter egg is ");
    if s.enabled {
        append_str(&mut r, "enabled");
    } else {
        append_str(&mut r, "disabled");
    }
    append_str(&mut r, ".\nTarget: <@");
    push_decimal(&mut r, s.target_user_id);
    append_str(&mut r, ">\nChannel: <#");
    push_decimal(&mut r, s.channel_id);
    append_str(&mut r, ">\nWindow: ");
    append_str(&mut r, format_time(s.window_start_minute).as_str());
    append_str(&mut r, "-");
    append_str(&mut r, format_time(s.window_end_minute).as_str());
    append_str(&mut r, "\nMessages: ");
    push_decimal(&mut r, messages.len() as u64);
    append_str(&mut r, "\n");
    if preview.as_str().unicode_len() == 0 {
        append_str(&mut r, "No messages configured.");
    } else {
        append_str(&mut r, preview.as_str());
    }
    r
}

} // verus!
