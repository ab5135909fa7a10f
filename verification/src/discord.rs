//! What a posted poll looks like: its embed, its buttons and the message
//! that carries them. The types here describe the message; turning them
//! into Discord's builders is left to the caller.
use vstd::prelude::*;

use crate::calendar::{
    in_calendar_range, month_name, utc_date_of, utc_hour_minute_text, year_text, UtcTimestamp,
};
use crate::components::vote_id_text;
use crate::models::{Poll, PollNotification, Vote};
use crate::text::{
    append_str, chars_of, decimal, lowercase, push_char, push_decimal, push_signed_decimal,
    signed_decimal, str_eq, string_of_range, to_lowercase, to_uppercase, trim, trim_bounds,
    uppercase, all_ascii, lemma_ascii_utf8_len, lemma_decimal_nonempty_digits, lemma_utf8_concat,
};

verus! {

pub const POLL_COLOR: u32 = 0x2f9eaa;

#[derive(Clone, Copy, Debug, PartialEq, Eq, Structural)]
pub enum ButtonStyle {
    Primary,
    Secondary,
    Success,
    Danger,
}

/// A button of a poll.
#[derive(Debug)]
pub struct PollButton {
    pub custom_id: String,
    pub label: String,
    pub style: ButtonStyle,
}

/// A field of an embed.
#[derive(Debug)]
pub struct EmbedField {
    pub name: String,
    pub value: String,
    pub inline: bool,
}

/// The embed that shows a poll.
#[derive(Debug)]
pub struct PollEmbed {
    pub color: u32,
    pub title: String,
    pub description: Option<String>,
    pub fields: Vec<EmbedField>,
    pub footer: String,
}

/// The message that posts a poll; when it notifies, `notification` gives the
/// message text and the only users and roles it may ping.
#[derive(Debug)]
pub struct PollMessage {
    pub embed: PollEmbed,
    pub rows: Vec<Vec<PollButton>>,
    pub notification: Option<PollNotification>,
}

// ---------------------------------------------------------------------------
// Text pieces
// ---------------------------------------------------------------------------

/// Text fit for an embed: backticks become quotes, line breaks and tabs
/// spaces, then trimmed.
pub open spec fn embed_clean(s: Seq<char>) -> Seq<char> {
    trim(
        Seq::new(
            s.len(),
            |i: int|
                if s[i] == '`' {
                    '\''
                } else if s[i] == '\n' || s[i] == '\r' || s[i] == '\t' {
                    ' '
                } else {
                    s[i]
                },
        ),
    )
}

pub fn embed_text(value: &str) -> (r: String)
    ensures
        r@ == embed_clean(value@),
{
    let v = chars_of(value);
    let mut out: Vec<char> = Vec::new();
    let mut i: usize = 0;
    while i < v.len()
        invariant
            i <= v@.len(),
            out@.len() == i,
            forall|k: int|
                0 <= k < i ==> out@[k] == (if v@[k] == '`' {
                    '\''
                } else if v@[k] == '\n' || v@[k] == '\r' || v@[k] == '\t' {
                    ' '
                } else {
                    v@[k]
                }),
        decreases v@.len() - i,
    {
        let c = v[i];
        let d = if c == '`' {
            '\''
        } else if c == '\n' || c == '\r' || c == '\t' {
            ' '
        } else {
            c
        };
        out.push(d);
        i += 1;
    }
    assert(out@ =~= Seq::new(
        v@.len(),
        |k: int|
            if v@[k] == '`' {
                '\''
            } else if v@[k] == '\n' || v@[k] == '\r' || v@[k] == '\t' {
                ' '
            } else {
                v@[k]
            },
    ));
    let (a, b) = trim_bounds(&out);
    string_of_range(&out, a, b)
}

pub open spec fn mention_text(user_id: u64) -> Seq<char> {
    "<@"@ + decimal(user_id as nat) + ">"@
}

/// A mention of a user: `<@id>`.
pub fn user_mention(user_id: u64) -> (r: String)
    ensures
        r@ == mention_text(user_id),
{
    let mut r = String::new();
    append_str(&mut r, "<@");
    push_decimal(&mut r, user_id);
    append_str(&mut r, ">");
    r
}

pub open spec fn vote_count_text(count: nat) -> Seq<char> {
    if count == 1 {
        "1 vote"@
    } else {
        decimal(count) + " votes"@
    }
}

pub fn vote_count(count: usize) -> (r: String)
    ensures
        r@ == vote_count_text(count as nat),
{
    if count == 1 {
        crate::validation::str_to_string("1 vote")
    } else {
        let mut r = String::new();
        push_decimal(&mut r, count as u64);
        append_str(&mut r, " votes");
        r
    }
}

/// The value when its trimmed text is not empty.
pub fn filled_text(value: Option<&str>) -> (r: Option<&str>)
    ensures
        r == (match value {
            Some(v) => if trim(v@).len() > 0 {
                Some(v)
            } else {
                None
            },
            None => None,
        }),
{
    match value {
        None => None,
        Some(v) => {
            let cs = chars_of(v);
            let (a, b) = trim_bounds(&cs);
            if a < b {
                Some(v)
            } else {
                None
            }
        },
    }
}

pub open spec fn row_break_text() -> Seq<char> {
    seq!['\u{200B}']
}

/// The name of the empty field that ends a row of inline fields.
pub fn row_break_name() -> (r: String)
    ensures
        r@ == row_break_text(),
{
    let mut r = String::new();
    push_char(&mut r, '\u{200B}');
    r
}

/// The value of the empty field that ends a row of inline fields.
pub fn row_break_value() -> (r: String)
    ensures
        r@ == row_break_text(),
{
    row_break_name()
}

/// `<t:SECONDS:F>`, which Discord shows as a full date and time in the
/// reader's zone.
pub open spec fn discord_time_text(time: UtcTimestamp) -> Seq<char> {
    "<t:"@ + signed_decimal(time.secs as int) + ":F>"@
}

pub fn format_discord_time(time: UtcTimestamp) -> (r: String)
    ensures
        r@ == discord_time_text(time),
{
    let mut r = String::new();
    append_str(&mut r, "<t:");
    push_signed_decimal(&mut r, time.timestamp());
    append_str(&mut r, ":F>");
    r
}

/// An instant as `%-d %B %Y at %H:%M` writes it in UTC: the day without
/// padding, the month's name, the year, then hours and minutes.
pub open spec fn created_on_text(secs: int) -> Seq<char> {
    let d = utc_date_of(secs);
    decimal(d.day as nat) + " "@ + month_name(d.month as int) + " "@ + year_text(d.year as int)
        + " at "@ + utc_hour_minute_text(secs)
}

/// `DateTime::from_timestamp` and `DateTime::format("%-d %B %Y at %H:%M")`.
#[verifier::external_body]
fn format_created_on(at: UtcTimestamp) -> (r: String)
    requires
        in_calendar_range(at),
    ensures
        r@ == created_on_text(at.secs as int),
{
    chrono::DateTime::from_timestamp(at.secs, at.nanos).unwrap().format("%-d %B %Y at %H:%M").to_string()
}

// ---------------------------------------------------------------------------
// Choice fields
// ---------------------------------------------------------------------------

/// How many votes are for `choice`.
pub open spec fn count_votes(responses: Seq<Vote>, choice: Seq<char>) -> nat
    decreases responses.len(),
{
    if responses.len() == 0 {
        0
    } else {
        count_votes(responses.drop_last(), choice) + (if responses.last().choice@ == choice {
            1nat
        } else {
            0nat
        })
    }
}

/// Mentions of the voters for `choice`, in the order of the votes.
pub open spec fn voter_mentions(responses: Seq<Vote>, choice: Seq<char>) -> Seq<Seq<char>>
    decreases responses.len(),
{
    if responses.len() == 0 {
        Seq::empty()
    } else {
        let p = voter_mentions(responses.drop_last(), choice);
        if responses.last().choice@ == choice {
            p.push(mention_text(responses.last().user_id))
        } else {
            p
        }
    }
}

/// Lines joined with `\n`.
pub open spec fn join_lines(lines: Seq<Seq<char>>) -> Seq<char>
    decreases lines.len(),
{
    if lines.len() == 0 {
        Seq::empty()
    } else if lines.len() == 1 {
        lines[0]
    } else {
        join_lines(lines.drop_last()) + seq!['\n'] + lines.last()
    }
}

/// How many of the lines fit, from line `k` on, before the text would pass
/// 1000 characters.
pub open spec fn lines_that_fit(lines: Seq<Seq<char>>, k: nat) -> nat
    decreases lines.len() - k,
{
    if k >= lines.len() {
        lines.len()
    } else if join_lines(lines.take(k as int)).len() + lines[k as int].len() + 1 > 1000 {
        k
    } else {
        lines_that_fit(lines, k + 1)
    }
}

pub open spec fn choice_name_text(choice: Seq<char>, responses: Seq<Vote>) -> Seq<char> {
    embed_clean(choice) + " - "@ + vote_count_text(count_votes(responses, choice))
}

/// The voters for a choice, one mention a line; when that passes 1024
/// characters, the lines that fit in 1000 and a last line `…and more`.
pub open spec fn choice_value_text(choice: Seq<char>, responses: Seq<Vote>) -> Seq<char> {
    let voters = voter_mentions(responses, choice);
    if voters.len() == 0 {
        "_No one yet_"@
    } else if join_lines(voters).len() <= 1024 {
        join_lines(voters)
    } else {
        join_lines(voters.take(lines_that_fit(voters, 0) as int)) + "\n…and more"@
    }
}

proof fn lemma_count_step(responses: Seq<Vote>, choice: Seq<char>, i: int)
    requires
        0 <= i < responses.len(),
    ensures
        count_votes(responses.take(i + 1), choice) == count_votes(responses.take(i), choice) + (
        if responses[i].choice@ == choice {
            1nat
        } else {
            0nat
        }),
        voter_mentions(responses.take(i + 1), choice) == (if responses[i].choice@ == choice {
            voter_mentions(responses.take(i), choice).push(mention_text(responses[i].user_id))
        } else {
            voter_mentions(responses.take(i), choice)
        }),
{
    assert(responses.take(i + 1).drop_last() =~= responses.take(i));
    assert(responses.take(i + 1).last() == responses[i]);
}

pub fn choice_field_name(choice: &str, responses: &Vec<Vote>) -> (r: String)
    ensures
        r@ == choice_name_text(choice@, responses@),
{
    let mut count: usize = 0;
    let mut i: usize = 0;
    assert(responses@.take(0) =~= Seq::<Vote>::empty());
    while i < responses.len()
        invariant
            i <= responses@.len(),
            count == count_votes(responses@.take(i as int), choice@),
            count <= i,
        decreases responses@.len() - i,
    {
        proof {
            lemma_count_step(responses@, choice@, i as int);
        }
        if str_eq(responses[i].choice.as_str(), choice) {
            count += 1;
        }
        i += 1;
    }
    assert(responses@.take(responses@.len() as int) =~= responses@);
    let mut r = embed_text(choice);
    append_str(&mut r, " - ");
    append_str(&mut r, vote_count(count).as_str());
    r
}

proof fn lemma_join_lines_push(lines: Seq<Seq<char>>, line: Seq<char>)
    ensures
        join_lines(lines.push(line)) == (if lines.len() == 0 {
            line
        } else {
            join_lines(lines) + seq!['\n'] + line
        }),
{
    assert(lines.push(line).drop_last() =~= lines);
}

proof fn lemma_lines_that_fit_stop(lines: Seq<Seq<char>>, k: nat)
    requires
        k <= lines.len(),
        forall|j: nat| j < k ==> join_lines(lines.take(j as int)).len() + #[trigger] lines[j as int].len() + 1 <= 1000,
        k < lines.len() ==> join_lines(lines.take(k as int)).len() + lines[k as int].len() + 1 > 1000,
    ensures
        lines_that_fit(lines, 0) == k,
{
    lemma_lines_that_fit_from(lines, 0, k);
}

proof fn lemma_lines_that_fit_from(lines: Seq<Seq<char>>, j: nat, k: nat)
    requires
        j <= k <= lines.len(),
        forall|m: nat| m < k ==> join_lines(lines.take(m as int)).len() + #[trigger] lines[m as int].len() + 1 <= 1000,
        k < lines.len() ==> join_lines(lines.take(k as int)).len() + lines[k as int].len() + 1 > 1000,
    ensures
        lines_that_fit(lines, j) == k,
    decreases k - j,
{
    if j < k {
        assert(join_lines(lines.take(j as int)).len() + lines[j as int].len() + 1 <= 1000);
        lemma_lines_that_fit_from(lines, j + 1, k);
    }
}

pub fn choice_field_value(choice: &str, responses: &Vec<Vote>) -> (r: String)
    ensures
        r@ == choice_value_text(choice@, responses@),
        r@.len() <= 1024,
{
    proof {
        law_voter_field_fits(choice@, responses@);
    }
    let mut voters: Vec<String> = Vec::new();
    let mut i: usize = 0;
    assert(responses@.take(0) =~= Seq::<Vote>::empty());
    while i < responses.len()
        invariant
            i <= responses@.len(),
            voters@.len() == voter_mentions(responses@.take(i as int), choice@).len(),
            forall|k: int|
                0 <= k < voters@.len() ==> (#[trigger] voters@[k])@ == voter_mentions(
                    responses@.take(i as int),
                    choice@,
                )[k],
        decreases responses@.len() - i,
    {
        proof {
            lemma_count_step(responses@, choice@, i as int);
        }
        if str_eq(responses[i].choice.as_str(), choice) {
            voters.push(user_mention(responses[i].user_id));
        }
        i += 1;
    }
    assert(responses@.take(responses@.len() as int) =~= responses@);
    let ghost lines = voter_mentions(responses@, choice@);
    if voters.len() == 0 {
        return crate::validation::str_to_string("_No one yet_");
    }
    // All the voters, one a line.
    let mut value = String::new();
    let mut j: usize = 0;
    assert(lines.take(0) =~= Seq::<Seq<char>>::empty());
    while j < voters.len()
        invariant
            j <= voters@.len() == lines.len(),
            forall|k: int| 0 <= k < voters@.len() ==> (#[trigger] voters@[k])@ == lines[k],
            value@ == join_lines(lines.take(j as int)),
        decreases voters@.len() - j,
    {
        proof {
            lemma_join_lines_push(lines.take(j as int), lines[j as int]);
            assert(lines.take(j as int).push(lines[j as int]) =~= lines.take(j + 1));
        }
        if j > 0 {
            push_char(&mut value, '\n');
        }
        append_str(&mut value, voters[j].as_str());
        proof {
            if j > 0 {
                assert(value@ =~= join_lines(lines.take(j as int)) + seq!['\n'] + lines[j as int]);
            }
        }
        j += 1;
    }
    assert(lines.take(lines.len() as int) =~= lines);
    if value.as_str().unicode_len() <= 1024 {
        return value;
    }
    // As many lines as fit in 1000 characters.
    let mut trimmed = String::new();
    let mut m: usize = 0;
    let mut full = false;
    assert(lines.take(0) =~= Seq::<Seq<char>>::empty());
    while m < voters.len() && !full
        invariant
            m <= voters@.len() == lines.len(),
            forall|k: int| 0 <= k < voters@.len() ==> (#[trigger] voters@[k])@ == lines[k],
            trimmed@ == join_lines(lines.take(m as int)),
            trimmed@.len() <= 1000,
            forall|q: nat| q < m ==> join_lines(lines.take(q as int)).len() + #[trigger] lines[q as int].len() + 1 <= 1000,
            full ==> m < lines.len() && join_lines(lines.take(m as int)).len() + lines[m as int].len() + 1 > 1000,
        decreases voters@.len() - m, if full { 0int } else { 1int },
    {
        let tl = trimmed.as_str().unicode_len();
        let vl = voters[m].as_str().unicode_len();
        if vl >= 1000 || tl + vl + 1 > 1000 {
            full = true;
        } else {
            proof {
                lemma_join_lines_push(lines.take(m as int), lines[m as int]);
                assert(lines.take(m as int).push(lines[m as int]) =~= lines.take(m + 1));
            }
            if m > 0 {
                push_char(&mut trimmed, '\n');
            }
            append_str(&mut trimmed, voters[m].as_str());
            proof {
                if m > 0 {
                    assert(trimmed@ =~= join_lines(lines.take(m as int)) + seq!['\n'] + lines[m as int]);
                }
            }
            m += 1;
        }
    }
    proof {
        lemma_lines_that_fit_stop(lines, m as nat);
    }
    append_str(&mut trimmed, "\n…and more");
    trimmed
}

// ---------------------------------------------------------------------------
// Buttons
// ---------------------------------------------------------------------------

/// The style of a choice's button, by what the choice says.
pub open spec fn style_for(choice: Seq<char>) -> ButtonStyle {
    let t = lowercase(trim(choice));
    if t == "yes"@ || t == "y"@ || t == "going"@ || t == "in"@ {
        ButtonStyle::Success
    } else if t == "no"@ || t == "n"@ || t == "not going"@ || t == "out"@ {
        ButtonStyle::Danger
    } else if t == "maybe"@ || t == "later"@ || t == "unsure"@ {
        ButtonStyle::Secondary
    } else {
        ButtonStyle::Primary
    }
}

pub fn button_style(choice: &str) -> (r: ButtonStyle)
    ensures
        r == style_for(choice@),
{
    let t = to_lowercase(crate::text::trim_string(choice).as_str());
    let s = t.as_str();
    if str_eq(s, "yes") || str_eq(s, "y") || str_eq(s, "going") || str_eq(s, "in") {
        ButtonStyle::Success
    } else if str_eq(s, "no") || str_eq(s, "n") || str_eq(s, "not going") || str_eq(s, "out") {
        ButtonStyle::Danger
    } else if str_eq(s, "maybe") || str_eq(s, "later") || str_eq(s, "unsure") {
        ButtonStyle::Secondary
    } else {
        ButtonStyle::Primary
    }
}

/// The buttons of a poll: one per choice, in order, five to a row; each
/// labelled with its choice and carrying the poll id and choice index.
pub open spec fn is_poll_buttons(rows: Seq<Vec<PollButton>>, poll_id: Seq<char>, choices: Seq<String>) -> bool {
    &&& rows.len() == (choices.len() + 4) / 5
    &&& forall|r: int|
        0 <= r < rows.len() ==> (#[trigger] rows[r])@.len() == (if choices.len() - r * 5 < 5 {
            choices.len() - r * 5
        } else {
            5
        })
    &&& forall|i: int|
        0 <= i < choices.len() ==> {
            let b = #[trigger] rows[i / 5]@[i % 5];
            &&& b.custom_id@ == vote_id_text(poll_id, i as nat)
            &&& b.label@ == choices[i]@
            &&& b.style == style_for(choices[i]@)
        }
}

pub fn render_poll_buttons(poll: &Poll) -> (rows: Vec<Vec<PollButton>>)
    ensures
        is_poll_buttons(rows@, poll.id@, poll.choices@),
{
    let n = poll.choices.len();
    let mut rows: Vec<Vec<PollButton>> = Vec::new();
    let mut start: usize = 0;
    while start < n
        invariant
            n == poll.choices@.len(),
            start % 5 == 0,
            start <= n + 4,
            start < n ==> rows@.len() * 5 == start,
            start >= n ==> rows@.len() == (n + 4) / 5,
            forall|r: int|
                0 <= r < rows@.len() ==> (#[trigger] rows@[r])@.len() == (if n - r * 5 < 5 {
                    n - r * 5
                } else {
                    5
                }),
            forall|i: int|
                0 <= i < n && i < rows@.len() * 5 ==> {
                    let b = #[trigger] rows@[i / 5]@[i % 5];
                    &&& b.custom_id@ == vote_id_text(poll.id@, i as nat)
                    &&& b.label@ == poll.choices@[i]@
                    &&& b.style == style_for(poll.choices@[i]@)
                },
        decreases n + 4 - start,
    {
        let end = if n - start < 5 {
            n
        } else {
            start + 5
        };
        let mut row: Vec<PollButton> = Vec::new();
        let mut i = start;
        while i < end
            invariant
                start <= i <= end <= n,
                n == poll.choices@.len(),
                row@.len() == i - start,
                forall|j: int|
                    start <= j < i ==> {
                        let b = #[trigger] row@[j - start];
                        &&& b.custom_id@ == vote_id_text(poll.id@, j as nat)
                        &&& b.label@ == poll.choices@[j]@
                        &&& b.style == style_for(poll.choices@[j]@)
                    },
            decreases end - i,
        {
            let choice = &poll.choices[i];
            let mut id = String::new();
            append_str(&mut id, "vote:");
            append_str(&mut id, poll.id.as_str());
            append_str(&mut id, ":");
            push_decimal(&mut id, i as u64);
            row.push(
                PollButton {
                    custom_id: id,
                    label: choice.clone(),
                    style: button_style(choice.as_str()),
                },
            );
            i += 1;
        }
        let ghost before = rows@;
        rows.push(row);
        proof {
            assert forall|i: int|
                0 <= i < n && i < rows@.len() * 5 implies {
                let b = #[trigger] rows@[i / 5]@[i % 5];
                &&& b.custom_id@ == vote_id_text(poll.id@, i as nat)
                &&& b.label@ == poll.choices@[i]@
                &&& b.style == style_for(poll.choices@[i]@)
            } by {
                if i < start {
                    assert(rows@[i / 5] == before[i / 5]);
                } else {
                    assert(i / 5 == start / 5);
                    assert(i % 5 == i - start);
                }
            }
        }
        start = start + 5;
    }
    rows
}

// ---------------------------------------------------------------------------
// The embed
// ---------------------------------------------------------------------------

pub open spec fn field_is(f: EmbedField, name: Seq<char>, value: Seq<char>, inline: bool) -> bool {
    f.name@ == name && f.value@ == value && f.inline == inline
}

/// The embed of a poll: its title in capitals after a calendar, its
/// description, when it is, where (when set) and who made it, then one field
/// per choice with its votes; the footer names the poll and its creation.
pub open spec fn is_poll_embed(e: PollEmbed, poll: Poll, responses: Seq<Vote>) -> bool {
    let when = match poll.when {
        Some(w) => w@,
        None => "Not specified"@,
    };
    let creator = mention_text(poll.created_by);
    let n = poll.choices@.len();
    &&& e.color == POLL_COLOR
    &&& e.title@ == "📅 "@ + uppercase(embed_clean(poll.title@))
    &&& (e.description is Some <==> poll.description is Some)
    &&& (e.description matches Some(d) ==> d@ == embed_clean(poll.description->0@))
    &&& e.fields@.len() == 3 + n
    &&& field_is(e.fields@[0], "🗓 When"@, embed_clean(when), true)
    &&& if (poll.location matches Some(l) && trim(l@).len() > 0) {
        &&& field_is(e.fields@[1], "📍 Where"@, embed_clean(poll.location->0@), true)
        &&& field_is(e.fields@[2], "👤 Creator"@, creator, true)
    } else {
        &&& field_is(e.fields@[1], "👤 Creator"@, creator, true)
        &&& field_is(e.fields@[2], row_break_text(), row_break_text(), false)
    }
    &&& forall|i: int|
        0 <= i < n ==> field_is(
            #[trigger] e.fields@[3 + i],
            choice_name_text(poll.choices@[i]@, responses),
            choice_value_text(poll.choices@[i]@, responses),
            true,
        )
    &&& e.footer@ == "Event ID: "@ + poll.id@ + " • Created on: "@ + created_on_text(
        poll.created_at.secs as int,
    )
}

pub fn render_poll_embed(poll: &Poll, responses: &Vec<Vote>) -> (e: PollEmbed)
    requires
        in_calendar_range(poll.created_at),
    ensures
        is_poll_embed(e, *poll, responses@),
{
    let mut title = String::new();
    append_str(&mut title, "📅 ");
    append_str(&mut title, to_uppercase(embed_text(poll.title.as_str()).as_str()).as_str());
    let description = match &poll.description {
        Some(d) => Some(embed_text(d.as_str())),
        None => None,
    };
    let mut fields: Vec<EmbedField> = Vec::new();
    let when_text = match &poll.when {
        Some(w) => embed_text(w.as_str()),
        None => embed_text("Not specified"),
    };
    fields.push(
        EmbedField {
            name: crate::validation::str_to_string("🗓 When"),
            value: when_text,
            inline: true,
        },
    );
    let location = match &poll.location {
        Some(l) => filled_text(Some(l.as_str())),
        None => None,
    };
    match location {
        Some(l) => {
            fields.push(
                EmbedField {
                    name: crate::validation::str_to_string("📍 Where"),
                    value: embed_text(l),
                    inline: true,
                },
            );
            fields.push(
                EmbedField {
                    name: crate::validation::str_to_string("👤 Creator"),
                    value: user_mention(poll.created_by),
                    inline: true,
                },
            );
        },
        None => {
            fields.push(
                EmbedField {
                    name: crate::validation::str_to_string("👤 Creator"),
                    value: user_mention(poll.created_by),
                    inline: true,
                },
            );
            fields.push(
                EmbedField { name: row_break_name(), value: row_break_value(), inline: false },
            );
        },
    }
    let n = poll.choices.len();
    let mut i: usize = 0;
    let ghost head = fields@;
    while i < n
        invariant
            i <= n == poll.choices@.len(),
            fields@.len() == 3 + i,
            forall|k: int|
                0 <= k < i ==> field_is(
                    #[trigger] fields@[3 + k],
                    choice_name_text(poll.choices@[k]@, responses@),
                    choice_value_text(poll.choices@[k]@, responses@),
                    true,
                ),
            head.len() == 3,
            forall|k: int| 0 <= k < 3 ==> #[trigger] fields@[k] == head[k],
        decreases n - i,
    {
        let choice = poll.choices[i].as_str();
        fields.push(
            EmbedField {
                name: choice_field_name(choice, responses),
                value: choice_field_value(choice, responses),
                inline: true,
            },
        );
        i += 1;
    }
    let mut footer = String::new();
    append_str(&mut footer, "Event ID: ");
    append_str(&mut footer, poll.id.as_str());
    append_str(&mut footer, " • Created on: ");
    append_str(&mut footer, format_created_on(poll.created_at).as_str());
    PollEmbed { color: POLL_COLOR, title, description, fields, footer }
}

/// The message that posts a poll: its embed and buttons, and, when it
/// notifies, the notification's text and the users and roles it may ping.
pub fn render_poll_message(
    poll: &Poll,
    responses: &Vec<Vote>,
    notification: Option<&PollNotification>,
) -> (m: PollMessage)
    requires
        in_calendar_range(poll.created_at),
    ensures
        is_poll_embed(m.embed, *poll, responses@),
        is_poll_buttons(m.rows@, poll.id@, poll.choices@),
        m.notification is Some <==> notification is Some,
        m.notification matches Some(n) ==> {
            let given = notification->0;
            &&& n.content@ == given.content@
            &&& n.user_ids@ == given.user_ids@
            &&& n.role_ids@ == given.role_ids@
        },
{
    let embed = render_poll_embed(poll, responses);
    let rows = render_poll_buttons(poll);
    let notification = match notification {
        Some(n) => Some(
            PollNotification {
                content: n.content.clone(),
                user_ids: n.user_ids.clone(),
                role_ids: n.role_ids.clone(),
            },
        ),
        None => None,
    };
    PollMessage { embed, rows, notification }
}

/// Pressing a rendered button of a poll with a library-made id asks for
/// exactly that poll and that choice.
pub proof fn law_buttons_read_back(
    rows: Seq<Vec<PollButton>>,
    poll_id: Seq<char>,
    choices: Seq<String>,
    i: int,
)
    requires
        is_poll_buttons(rows, poll_id, choices),
        crate::models::is_short_id(poll_id),
        0 <= i < choices.len() <= usize::MAX,
    ensures
        crate::components::vote_target_of(rows[i / 5]@[i % 5].custom_id@) == (
        crate::components::VoteTargetView::Choice { poll_id, choice_index: i as nat }),
{
    assert forall|j: int| 0 <= j < poll_id.len() implies poll_id[j] != ':' by {
        assert(crate::models::is_lower_hex(poll_id[j]));
    }
    let b = rows[i / 5]@[i % 5];
    assert(b.custom_id@ == vote_id_text(poll_id, i as nat));
    crate::components::law_vote_id_round_trip(poll_id, i as nat);
}

/// A poll with at most twenty-five choices, as Discord allows, has at most
/// five rows of buttons, and every row but the last is full.
pub proof fn law_buttons_fit(rows: Seq<Vec<PollButton>>, poll_id: Seq<char>, choices: Seq<String>)
    requires
        is_poll_buttons(rows, poll_id, choices),
        choices.len() <= 25,
    ensures
        rows.len() <= 5,
        forall|r: int| 0 <= r < rows.len() - 1 ==> (#[trigger] rows[r])@.len() == 5,
{
    assert forall|r: int| 0 <= r < rows.len() - 1 implies (#[trigger] rows[r])@.len() == 5 by {
        assert(choices.len() - r * 5 >= 5) by (nonlinear_arith)
            requires
                rows.len() == (choices.len() + 4) / 5,
                0 <= r < rows.len() - 1,
        ;
    }
}

proof fn lemma_join_lines_take_step(lines: Seq<Seq<char>>, k: int)
    requires
        0 <= k < lines.len(),
    ensures
        join_lines(lines.take(k + 1)).len() <= join_lines(lines.take(k)).len() + lines[k].len()
            + 1,
{
    assert(lines.take(k + 1).drop_last() =~= lines.take(k));
    assert(lines.take(k + 1).last() == lines[k]);
    if k == 0 {
        assert(lines.take(1)[0] == lines[0]);
    }
}

proof fn lemma_lines_that_fit_len(lines: Seq<Seq<char>>, k: nat)
    requires
        k <= lines.len(),
        join_lines(lines.take(k as int)).len() <= 1000,
    ensures
        lines_that_fit(lines, k) <= lines.len(),
        join_lines(lines.take(lines_that_fit(lines, k) as int)).len() <= 1000,
    decreases lines.len() - k,
{
    if k < lines.len() && join_lines(lines.take(k as int)).len() + lines[k as int].len() + 1
        <= 1000 {
        lemma_join_lines_take_step(lines, k as int);
        lemma_lines_that_fit_len(lines, k + 1);
    } else if k >= lines.len() {
        assert(lines.take(k as int) =~= lines.take(lines.len() as int));
    }
}

/// A choice's field value never passes the 1024 characters Discord allows:
/// all voters when they fit, else the lines that fit in 1000 and a last
/// line `…and more`.
pub proof fn law_voter_field_fits(choice: Seq<char>, responses: Seq<Vote>)
    ensures
        choice_value_text(choice, responses).len() <= 1024,
{
    reveal_strlit("_No one yet_");
    reveal_strlit("\n…and more");
    let voters = voter_mentions(responses, choice);
    if voters.len() > 0 && join_lines(voters).len() > 1024 {
        assert(voters.take(0) =~= Seq::<Seq<char>>::empty());
        lemma_lines_that_fit_len(voters, 0);
    }
}


proof fn lemma_mention_ascii(user_id: u64)
    ensures
        all_ascii(mention_text(user_id)),
{
    reveal_strlit("<@");
    reveal_strlit(">");
    let d = decimal(user_id as nat);
    lemma_decimal_nonempty_digits(user_id as nat);
    let m = mention_text(user_id);
    assert forall|i: int| 0 <= i < m.len() implies (#[trigger] m[i] as u32) < 128 by {
        if 2 <= i < 2 + d.len() {
            assert(m[i] == d[i - 2]);
        }
    }
}

proof fn lemma_voter_mentions_ascii(responses: Seq<Vote>, choice: Seq<char>)
    ensures
        forall|k: int|
            0 <= k < voter_mentions(responses, choice).len() ==> all_ascii(
                #[trigger] voter_mentions(responses, choice)[k],
            ),
    decreases responses.len(),
{
    if responses.len() > 0 {
        lemma_voter_mentions_ascii(responses.drop_last(), choice);
        lemma_mention_ascii(responses.last().user_id);
        let p = voter_mentions(responses.drop_last(), choice);
        let v = voter_mentions(responses, choice);
        assert forall|k: int| 0 <= k < v.len() implies all_ascii(#[trigger] v[k]) by {
            if k < p.len() {
                assert(v[k] == p[k]);
            } else {
                assert(v[k] == mention_text(responses.last().user_id));
            }
        }
    }
}

proof fn lemma_join_lines_ascii(lines: Seq<Seq<char>>)
    requires
        forall|k: int| 0 <= k < lines.len() ==> all_ascii(#[trigger] lines[k]),
    ensures
        all_ascii(join_lines(lines)),
    decreases lines.len(),
{
    if lines.len() >= 2 {
        let p = lines.drop_last();
        assert forall|k: int| 0 <= k < p.len() implies all_ascii(#[trigger] p[k]) by {
            assert(p[k] == lines[k]);
        }
        lemma_join_lines_ascii(p);
        let a = join_lines(p);
        let l = lines.last();
        assert(all_ascii(lines[lines.len() - 1]));
        let j = a + seq!['\n'] + l;
        assert forall|i: int| 0 <= i < j.len() implies (#[trigger] j[i] as u32) < 128 by {
            if i < a.len() {
                assert(j[i] == a[i]);
            } else if i > a.len() {
                assert(j[i] == l[i - a.len() - 1]);
            }
        }
    } else if lines.len() == 1 {
        assert(all_ascii(lines[0]));
    }
}

/// A choice's field value stays within the 1024 UTF-8 bytes Discord allows.
/// The voter lines take one byte a character, so the 1024 test on their
/// length is the same on characters as on bytes; when they do not fit, the
/// value keeps a proper prefix of the voters and adds the line `…and more`.
pub proof fn law_voter_field_bytes(choice: Seq<char>, responses: Seq<Vote>)
    ensures
        vstd::utf8::encode_utf8(choice_value_text(choice, responses)).len() <= 1024,
        vstd::utf8::encode_utf8(join_lines(voter_mentions(responses, choice))).len()
            == join_lines(voter_mentions(responses, choice)).len(),
        join_lines(voter_mentions(responses, choice)).len() > 1024 ==> lines_that_fit(
            voter_mentions(responses, choice),
            0,
        ) < voter_mentions(responses, choice).len(),
{
    reveal_strlit("_No one yet_");
    reveal_strlit("\n…and more");
    let voters = voter_mentions(responses, choice);
    lemma_voter_mentions_ascii(responses, choice);
    lemma_join_lines_ascii(voters);
    lemma_ascii_utf8_len(join_lines(voters));
    let r = choice_value_text(choice, responses);
    if voters.len() == 0 {
        lemma_ascii_utf8_len("_No one yet_"@);
    } else if join_lines(voters).len() > 1024 {
        assert(voters.take(0) =~= Seq::<Seq<char>>::empty());
        lemma_lines_that_fit_len(voters, 0);
        let k = lines_that_fit(voters, 0);
        if k == voters.len() {
            assert(voters.take(k as int) =~= voters);
        }
        let kept = voters.take(k as int);
        assert forall|i: int| 0 <= i < kept.len() implies all_ascii(#[trigger] kept[i]) by {
            assert(kept[i] == voters[i]);
        }
        lemma_join_lines_ascii(kept);
        lemma_ascii_utf8_len(join_lines(kept));
        let tail = "\n…and more"@;
        lemma_utf8_concat(join_lines(kept), tail);
        let dots = seq!['\u{2026}'];
        let words = "and more"@;
        reveal_strlit("and more");
        assert(tail =~= seq!['\n'] + dots + words);
        lemma_utf8_concat(seq!['\n'] + dots, words);
        lemma_utf8_concat(seq!['\n'], dots);
        lemma_ascii_utf8_len(seq!['\n']);
        lemma_ascii_utf8_len(words);
        assert(dots.drop_first() =~= Seq::<char>::empty());
        assert(dots[0] == '\u{2026}');
        assert(('\u{2026}' as u32) == 0x2026u32);
        assert(vstd::utf8::has_width_3_encoding(0x2026u32));
        assert(vstd::utf8::encode_scalar(0x2026u32).len() == 3);
        assert(vstd::utf8::encode_utf8(dots.drop_first()) =~= Seq::<u8>::empty());
        assert(vstd::utf8::encode_utf8(dots).len() == 3);
    }
}


/// The words that mark an answer as yes, as no, and as undecided.
pub open spec fn yes_words() -> Seq<Seq<char>> {
    seq!["yes"@, "y"@, "going"@, "in"@]
}

pub open spec fn no_words() -> Seq<Seq<char>> {
    seq!["no"@, "n"@, "not going"@, "out"@]
}

pub open spec fn undecided_words() -> Seq<Seq<char>> {
    seq!["maybe"@, "later"@, "unsure"@]
}

/// A choice's button is green for a yes word, red for a no word, grey for an
/// undecided word (compared after trimming and in small letters) and the
/// plain colour otherwise; so the default answers `yes`, `no` and `maybe`
/// get three different colours, none of them the plain one.
pub proof fn law_button_colours(choice: Seq<char>)
    ensures
        (style_for(choice) == ButtonStyle::Success) <==> yes_words().contains(
            lowercase(trim(choice)),
        ),
        (style_for(choice) == ButtonStyle::Danger) <==> no_words().contains(lowercase(trim(choice))),
        (style_for(choice) == ButtonStyle::Secondary) <==> undecided_words().contains(
            lowercase(trim(choice)),
        ),
        style_for(crate::choices::default_choice_labels()[0]) == ButtonStyle::Success,
        style_for(crate::choices::default_choice_labels()[1]) == ButtonStyle::Danger,
        style_for(crate::choices::default_choice_labels()[2]) == ButtonStyle::Secondary,
{
    let t = lowercase(trim(choice));
    reveal_strlit("yes");
    reveal_strlit("y");
    reveal_strlit("going");
    reveal_strlit("in");
    reveal_strlit("no");
    reveal_strlit("n");
    reveal_strlit("not going");
    reveal_strlit("out");
    reveal_strlit("maybe");
    reveal_strlit("later");
    reveal_strlit("unsure");
    assert("yes"@[0] != "out"@[0]);
    assert("in"@[0] != "no"@[0]);
    assert("y"@[0] != "n"@[0]);
    assert("going"@[0] != "maybe"@[0]);
    assert("going"@[0] != "later"@[0]);
    assert("maybe"@ != "yes"@) by {
        if "maybe"@.len() == "yes"@.len() {
            assert("maybe"@[0] != "yes"@[0]);
        }
    }
    assert("maybe"@ != "y"@) by {
        if "maybe"@.len() == "y"@.len() {
            assert("maybe"@[0] != "y"@[0]);
        }
    }
    assert("maybe"@ != "going"@) by {
        if "maybe"@.len() == "going"@.len() {
            assert("maybe"@[0] != "going"@[0]);
        }
    }
    assert("maybe"@ != "in"@) by {
        if "maybe"@.len() == "in"@.len() {
            assert("maybe"@[0] != "in"@[0]);
        }
    }
    assert("maybe"@ != "no"@) by {
        if "maybe"@.len() == "no"@.len() {
            assert("maybe"@[0] != "no"@[0]);
        }
    }
    assert("maybe"@ != "n"@) by {
        if "maybe"@.len() == "n"@.len() {
            assert("maybe"@[0] != "n"@[0]);
        }
    }
    assert("maybe"@ != "not going"@) by {
        if "maybe"@.len() == "not going"@.len() {
            assert("maybe"@[0] != "not going"@[0]);
        }
    }
    assert("maybe"@ != "out"@) by {
        if "maybe"@.len() == "out"@.len() {
            assert("maybe"@[0] != "out"@[0]);
        }
    }
    assert("later"@ != "yes"@) by {
        if "later"@.len() == "yes"@.len() {
            assert("later"@[0] != "yes"@[0]);
        }
    }
    assert("later"@ != "y"@) by {
        if "later"@.len() == "y"@.len() {
            assert("later"@[0] != "y"@[0]);
        }
    }
    assert("later"@ != "going"@) by {
        if "later"@.len() == "going"@.len() {
            assert("later"@[0] != "going"@[0]);
        }
    }
    assert("later"@ != "in"@) by {
        if "later"@.len() == "in"@.len() {
            assert("later"@[0] != "in"@[0]);
        }
    }
    assert("later"@ != "no"@) by {
        if "later"@.len() == "no"@.len() {
            assert("later"@[0] != "no"@[0]);
        }
    }
    assert("later"@ != "n"@) by {
        if "later"@.len() == "n"@.len() {
            assert("later"@[0] != "n"@[0]);
        }
    }
    assert("later"@ != "not going"@) by {
        if "later"@.len() == "not going"@.len() {
            assert("later"@[0] != "not going"@[0]);
        }
    }
    assert("later"@ != "out"@) by {
        if "later"@.len() == "out"@.len() {
            assert("later"@[0] != "out"@[0]);
        }
    }
    assert("unsure"@ != "yes"@) by {
        if "unsure"@.len() == "yes"@.len() {
            assert("unsure"@[0] != "yes"@[0]);
        }
    }
    assert("unsure"@ != "y"@) by {
        if "unsure"@.len() == "y"@.len() {
            assert("unsure"@[0] != "y"@[0]);
        }
    }
    assert("unsure"@ != "going"@) by {
        if "unsure"@.len() == "going"@.len() {
            assert("unsure"@[0] != "going"@[0]);
        }
    }
    assert("unsure"@ != "in"@) by {
        if "unsure"@.len() == "in"@.len() {
            assert("unsure"@[0] != "in"@[0]);
        }
    }
    assert("unsure"@ != "no"@) by {
        if "unsure"@.len() == "no"@.len() {
            assert("unsure"@[0] != "no"@[0]);
        }
    }
    assert("unsure"@ != "n"@) by {
        if "unsure"@.len() == "n"@.len() {
            assert("unsure"@[0] != "n"@[0]);
        }
    }
    assert("unsure"@ != "not going"@) by {
        if "unsure"@.len() == "not going"@.len() {
            assert("unsure"@[0] != "not going"@[0]);
        }
    }
    assert("unsure"@ != "out"@) by {
        if "unsure"@.len() == "out"@.len() {
            assert("unsure"@[0] != "out"@[0]);
        }
    }
    let ys = yes_words();
    let ns = no_words();
    let us = undecided_words();
    assert(ys.contains(t) <==> (t == "yes"@ || t == "y"@ || t == "going"@ || t == "in"@)) by {
        if ys.contains(t) {
            let k = choose|k: int| 0 <= k < ys.len() && ys[k] == t;
        }
        if t == "yes"@ {
            assert(ys[0] == t);
        }
        if t == "y"@ {
            assert(ys[1] == t);
        }
        if t == "going"@ {
            assert(ys[2] == t);
        }
        if t == "in"@ {
            assert(ys[3] == t);
        }
    }
    assert(ns.contains(t) <==> (t == "no"@ || t == "n"@ || t == "not going"@ || t == "out"@)) by {
        if ns.contains(t) {
            let k = choose|k: int| 0 <= k < ns.len() && ns[k] == t;
        }
        if t == "no"@ {
            assert(ns[0] == t);
        }
        if t == "n"@ {
            assert(ns[1] == t);
        }
        if t == "not going"@ {
            assert(ns[2] == t);
        }
        if t == "out"@ {
            assert(ns[3] == t);
        }
    }
    assert(us.contains(t) <==> (t == "maybe"@ || t == "later"@ || t == "unsure"@)) by {
        if us.contains(t) {
            let k = choose|k: int| 0 <= k < us.len() && us[k] == t;
        }
        if t == "maybe"@ {
            assert(us[0] == t);
        }
        if t == "later"@ {
            assert(us[1] == t);
        }
        if t == "unsure"@ {
            assert(us[2] == t);
        }
    }
    let d = crate::choices::default_choice_labels();
    assert forall|k: int| 0 <= k < 3 implies lowercase(trim(#[trigger] d[k])) == d[k] by {
        crate::text::lemma_trim_fixed(d[k]);
        assert(crate::text::all_ascii(d[k]));
        assert(crate::text::ascii_lowered(d[k]) =~= d[k]);
    }
}

} // verus!
