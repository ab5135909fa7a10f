//! Votes cast with a poll's buttons: reading the button, deciding what the
//! vote changes, and the feedback the voter sees.
use vstd::prelude::*;

use crate::models::Vote;
use crate::text::{
    append_str, chars_of, parse_u64, parse_unsigned, str_eq, string_of_range, trim, trim_bounds,
};

verus! {

// ---------------------------------------------------------------------------
// Plain text
// ---------------------------------------------------------------------------

/// Characters that Discord reads as markup or mentions.
pub open spec fn is_markup(c: char) -> bool {
    c == '@' || c == '`' || c == '*' || c == '_' || c == '~' || c == '|' || c == '<' || c == '>'
}

pub open spec fn is_line_break_or_tab(c: char) -> bool {
    c == '\n' || c == '\r' || c == '\t'
}

/// The value with markup characters dropped and line breaks and tabs
/// turned into spaces.
pub open spec fn unmarked(s: Seq<char>) -> Seq<char>
    decreases s.len(),
{
    if s.len() == 0 {
        Seq::empty()
    } else {
        let p = unmarked(s.drop_last());
        let c = s.last();
        if is_markup(c) {
            p
        } else if is_line_break_or_tab(c) {
            p.push(' ')
        } else {
            p.push(c)
        }
    }
}

/// What `plain_text` gives: no markup, on one line, trimmed.
pub open spec fn plain(s: Seq<char>) -> Seq<char> {
    trim(unmarked(s))
}

/// `value` as plain text: markup characters dropped, line breaks and tabs
/// turned into spaces, then trimmed.
pub fn plain_text(value: &str) -> (r: String)
    ensures
        r@ == plain(value@),
{
    let v = chars_of(value);
    let mut out: Vec<char> = Vec::new();
    let mut i: usize = 0;
    assert(v@.take(0) =~= Seq::<char>::empty());
    while i < v.len()
        invariant
            i <= v@.len(),
            out@ == unmarked(v@.take(i as int)),
        decreases v@.len() - i,
    {
        let c = v[i];
        assert(v@.take(i + 1).drop_last() =~= v@.take(i as int));
        assert(v@.take(i + 1).last() == c);
        if c == '@' || c == '`' || c == '*' || c == '_' || c == '~' || c == '|' || c == '<' || c
            == '>' {
        } else if c == '\n' || c == '\r' || c == '\t' {
            out.push(' ');
        } else {
            out.push(c);
        }
        i += 1;
    }
    assert(v@.take(v@.len() as int) =~= v@);
    let (a, b) = trim_bounds(&out);
    string_of_range(&out, a, b)
}

/// Plain text holds no markup character and no line break or tab.
pub proof fn law_plain_text_is_plain(s: Seq<char>)
    ensures
        forall|i: int|
            0 <= i < plain(s).len() ==> !is_markup(#[trigger] plain(s)[i])
                && !is_line_break_or_tab(plain(s)[i]),
{
    lemma_unmarked_is_plain(s);
    let u = unmarked(s);
    crate::text::lemma_trim_window(u);
    let a = u.len() - crate::text::trim_start(u).len();
    assert forall|i: int| 0 <= i < plain(s).len() implies !is_markup(#[trigger] plain(s)[i])
        && !is_line_break_or_tab(plain(s)[i]) by {
        assert(plain(s) == crate::text::trim(u));
        assert(crate::text::trim(u) =~= u.subrange(a, a + crate::text::trim(u).len()));
        assert(plain(s)[i] == u[a + i]);
    }
}

proof fn lemma_unmarked_is_plain(s: Seq<char>)
    ensures
        forall|i: int|
            0 <= i < unmarked(s).len() ==> !is_markup(#[trigger] unmarked(s)[i])
                && !is_line_break_or_tab(unmarked(s)[i]),
    decreases s.len(),
{
    if s.len() > 0 {
        lemma_unmarked_is_plain(s.drop_last());
        let p = unmarked(s.drop_last());
        assert forall|i: int| 0 <= i < unmarked(s).len() implies !is_markup(
            #[trigger] unmarked(s)[i],
        ) && !is_line_break_or_tab(unmarked(s)[i]) by {
            if i < p.len() {
                assert(unmarked(s)[i] == p[i]);
            }
        }
    }
}

/// What plain text makes of one character: markup is dropped, a line break
/// or tab becomes a space, anything else stays.
pub open spec fn plain_char(c: char) -> Option<char> {
    if is_markup(c) {
        None
    } else if is_line_break_or_tab(c) {
        Some(' ')
    } else {
        Some(c)
    }
}

/// Plain text drops only markup: text without markup, line breaks or tabs
/// comes out merely trimmed; in general the characters kept are those of the
/// value that are not markup, in order, line breaks and tabs as spaces.
pub proof fn law_plain_drops_only_markup(s: Seq<char>)
    ensures
        unmarked(s) == s.filter_map(|c: char| plain_char(c)),
        (forall|i: int|
            0 <= i < s.len() ==> !is_markup(#[trigger] s[i]) && !is_line_break_or_tab(s[i]))
            ==> plain(s) == trim(s),
    decreases s.len(),
{
    if s.len() > 0 {
        let p = s.drop_last();
        law_plain_drops_only_markup(p);
        let f = |c: char| plain_char(c);
        let c = s.last();
        match plain_char(c) {
            Some(x) => {
                assert(p.filter_map(f) + seq![x] =~= p.filter_map(f).push(x));
            },
            None => {},
        }
        if forall|i: int|
            0 <= i < s.len() ==> !is_markup(#[trigger] s[i]) && !is_line_break_or_tab(s[i]) {
            assert forall|i: int| 0 <= i < p.len() implies !is_markup(#[trigger] p[i])
                && !is_line_break_or_tab(p[i]) by {
                assert(p[i] == s[i]);
            }
            lemma_unmarked_clean(s);
        }
    }
}

proof fn lemma_unmarked_clean(s: Seq<char>)
    requires
        forall|i: int|
            0 <= i < s.len() ==> !is_markup(#[trigger] s[i]) && !is_line_break_or_tab(s[i]),
    ensures
        unmarked(s) == s,
    decreases s.len(),
{
    if s.len() > 0 {
        let p = s.drop_last();
        assert forall|i: int| 0 <= i < p.len() implies !is_markup(#[trigger] p[i])
            && !is_line_break_or_tab(p[i]) by {
            assert(p[i] == s[i]);
        }
        lemma_unmarked_clean(p);
        assert(s[s.len() - 1] == s.last());
        assert(p.push(s.last()) =~= s);
    }
}

// ---------------------------------------------------------------------------
// Feedback
// ---------------------------------------------------------------------------

/// The feedback shown after a vote.
pub open spec fn feedback_text(previous: Option<Seq<char>>, choice: Seq<char>) -> Seq<char> {
    match previous {
        Some(p) => if p == choice {
            "You already chose \""@ + plain(choice) + "\"."@
        } else {
            "Changed your choice from \""@ + plain(p) + "\" to \""@ + plain(choice) + "\"."@
        },
        None => "You chose \""@ + plain(choice) + "\"."@,
    }
}

pub fn vote_feedback(previous_choice: Option<&str>, choice: &str) -> (r: String)
    ensures
        r@ == feedback_text(
            match previous_choice {
                Some(p) => Some(p@),
                None => None,
            },
            choice@,
        ),
{
    let mut r = String::new();
    match previous_choice {
        Some(p) => {
            if str_eq(p, choice) {
                append_str(&mut r, "You already chose \"");
                append_str(&mut r, plain_text(choice).as_str());
                append_str(&mut r, "\".");
            } else {
                append_str(&mut r, "Changed your choice from \"");
                append_str(&mut r, plain_text(p).as_str());
                append_str(&mut r, "\" to \"");
                append_str(&mut r, plain_text(choice).as_str());
                append_str(&mut r, "\".");
            }
        },
        None => {
            append_str(&mut r, "You chose \"");
            append_str(&mut r, plain_text(choice).as_str());
            append_str(&mut r, "\".");
        },
    }
    r
}

/// The choice of the first vote by `user_id`.
pub open spec fn first_choice_of(responses: Seq<Vote>, user_id: u64) -> Option<Seq<char>>
    decreases responses.len(),
{
    if responses.len() == 0 {
        None
    } else if responses[0].user_id == user_id {
        Some(responses[0].choice@)
    } else {
        first_choice_of(responses.drop_first(), user_id)
    }
}

pub fn user_choice(responses: &Vec<Vote>, user_id: u64) -> (r: Option<&str>)
    ensures
        match r {
            Some(c) => first_choice_of(responses@, user_id) == Some(c@),
            None => first_choice_of(responses@, user_id) is None,
        },
{
    let mut i: usize = 0;
    assert(responses@.skip(0) =~= responses@);
    while i < responses.len()
        invariant
            i <= responses@.len(),
            first_choice_of(responses@, user_id) == first_choice_of(
                responses@.skip(i as int),
                user_id,
            ),
        decreases responses@.len() - i,
    {
        assert(responses@.skip(i as int).drop_first() =~= responses@.skip(i + 1));
        assert(responses@.skip(i as int)[0] == responses@[i as int]);
        if responses[i].user_id == user_id {
            return Some(responses[i].choice.as_str());
        }
        i += 1;
    }
    None
}

// ---------------------------------------------------------------------------
// Buttons
// ---------------------------------------------------------------------------

/// What a button's custom id asks for.
#[derive(Debug)]
pub enum VoteTarget {
    /// Not a vote button; nothing to do.
    NotAVote,
    /// A vote button whose choice index is not a number.
    InvalidIndex,
    Choice { poll_id: String, choice_index: usize },
}

pub enum VoteTargetView {
    NotAVote,
    InvalidIndex,
    Choice { poll_id: Seq<char>, choice_index: nat },
}

impl View for VoteTarget {
    type V = VoteTargetView;

    open spec fn view(&self) -> VoteTargetView {
        match self {
            VoteTarget::NotAVote => VoteTargetView::NotAVote,
            VoteTarget::InvalidIndex => VoteTargetView::InvalidIndex,
            VoteTarget::Choice { poll_id, choice_index } => VoteTargetView::Choice {
                poll_id: poll_id@,
                choice_index: *choice_index as nat,
            },
        }
    }
}

/// The position of the first `c` in `s`.
pub open spec fn index_of(s: Seq<char>, c: char) -> Option<int>
    decreases s.len(),
{
    if s.len() == 0 {
        None
    } else if s[0] == c {
        Some(0)
    } else {
        match index_of(s.drop_first(), c) {
            Some(i) => Some(i + 1),
            None => None,
        }
    }
}

/// The custom id of the button for choice `index` of poll `poll_id`.
pub open spec fn vote_id_text(poll_id: Seq<char>, index: nat) -> Seq<char> {
    "vote:"@ + poll_id + ":"@ + crate::text::decimal(index)
}

/// What a custom id asks for: `vote:`, the poll id up to the first `:`, then
/// the choice index as a number.
pub open spec fn vote_target_of(id: Seq<char>) -> VoteTargetView {
    if id.len() >= 5 && id.take(5) == "vote:"@ {
        let rest = id.skip(5);
        match index_of(rest, ':') {
            None => VoteTargetView::NotAVote,
            Some(k) => match parse_unsigned(rest.skip(k + 1), usize::MAX as nat) {
                None => VoteTargetView::InvalidIndex,
                Some(n) => VoteTargetView::Choice { poll_id: rest.take(k), choice_index: n },
            },
        }
    } else {
        VoteTargetView::NotAVote
    }
}

proof fn lemma_index_of_found(s: Seq<char>, c: char, k: int)
    requires
        0 <= k < s.len(),
        s[k] == c,
        forall|j: int| 0 <= j < k ==> s[j] != c,
    ensures
        index_of(s, c) == Some(k),
    decreases k,
{
    if k > 0 {
        lemma_index_of_found(s.drop_first(), c, k - 1);
    }
}

proof fn lemma_index_of_none(s: Seq<char>, c: char)
    requires
        forall|j: int| 0 <= j < s.len() ==> s[j] != c,
    ensures
        index_of(s, c) is None,
    decreases s.len(),
{
    if s.len() > 0 {
        lemma_index_of_none(s.drop_first(), c);
    }
}

fn parse_usize(s: &str) -> (r: Option<usize>)
    ensures
        r matches Some(v) ==> parse_unsigned(s@, usize::MAX as nat) == Some(v as nat),
        r is None ==> parse_unsigned(s@, usize::MAX as nat) is None,
{
    match parse_u64(s) {
        Some(v) => if v <= usize::MAX as u64 {
            Some(v as usize)
        } else {
            None
        },
        None => None,
    }
}

/// Reads a button's custom id.
pub fn parse_vote_id(custom_id: &str) -> (r: VoteTarget)
    ensures
        r@ == vote_target_of(custom_id@),
{
    let v = chars_of(custom_id);
    let prefix = chars_of("vote:");
    proof {
        reveal_strlit("vote:");
    }
    if v.len() < 5 {
        return VoteTarget::NotAVote;
    }
    let mut i: usize = 0;
    while i < 5
        invariant
            i <= 5 <= v@.len(),
            v@ == custom_id@,
            prefix@ == "vote:"@,
            prefix@.len() == 5,
            forall|j: int| 0 <= j < i ==> v@[j] == prefix@[j],
        decreases 5 - i,
    {
        if v[i] != prefix[i] {
            assert(v@.take(5)[i as int] != "vote:"@[i as int]);
            return VoteTarget::NotAVote;
        }
        i += 1;
    }
    assert(v@.take(5) =~= "vote:"@);
    let ghost rest = v@.skip(5);
    let mut k: usize = 5;
    while k < v.len() && v[k] != ':'
        invariant
            5 <= k <= v@.len(),
            rest == v@.skip(5),
            forall|j: int| 0 <= j < k - 5 ==> rest[j] != ':',
        decreases v@.len() - k,
    {
        k += 1;
    }
    if k == v.len() {
        proof {
            lemma_index_of_none(rest, ':');
        }
        return VoteTarget::NotAVote;
    }
    proof {
        lemma_index_of_found(rest, ':', k - 5);
    }
    let poll_id = string_of_range(&v, 5, k);
    let index_text = string_of_range(&v, k + 1, v.len());
    assert(poll_id@ =~= rest.take(k - 5));
    assert(index_text@ =~= rest.skip(k - 5 + 1));
    match parse_usize(index_text.as_str()) {
        None => VoteTarget::InvalidIndex,
        Some(choice_index) => VoteTarget::Choice { poll_id, choice_index },
    }
}

/// What a press of a choice button does.
#[derive(Debug)]
pub enum VoteDecision {
    /// The poll has no choice at that index any more.
    ChoiceGone,
    /// The voter had already picked this choice; only the feedback is sent.
    AlreadyChosen { feedback: String },
    /// The vote is recorded, the feedback sent and the poll updated.
    Record { choice: String, feedback: String },
}

/// Decides what a press of the button for choice `choice_index` by `user_id`
/// does, given the poll's choices and its current votes.
pub fn vote_decision(
    choices: &Vec<String>,
    responses: &Vec<Vote>,
    user_id: u64,
    choice_index: usize,
) -> (r: VoteDecision)
    ensures
        choice_index >= choices@.len() <==> r is ChoiceGone,
        choice_index < choices@.len() ==> {
            let choice = choices@[choice_index as int]@;
            let previous = first_choice_of(responses@, user_id);
            match r {
                VoteDecision::AlreadyChosen { feedback } => previous == Some(choice)
                    && feedback@ == feedback_text(previous, choice),
                VoteDecision::Record { choice: c, feedback } => previous != Some(choice) && c@
                    == choice && feedback@ == feedback_text(previous, choice),
                VoteDecision::ChoiceGone => false,
            }
        },
{
    if choice_index >= choices.len() {
        return VoteDecision::ChoiceGone;
    }
    let choice = &choices[choice_index];
    let previous = user_choice(responses, user_id);
    let feedback = vote_feedback(previous, choice.as_str());
    let same = match previous {
        Some(p) => str_eq(p, choice.as_str()),
        None => false,
    };
    if same {
        VoteDecision::AlreadyChosen { feedback }
    } else {
        VoteDecision::Record { choice: choice.clone(), feedback }
    }
}

/// The name a voter is shown under: the server nickname, else the global
/// display name, else the user name.
pub fn voter_display_name(nick: Option<&str>, global_name: Option<&str>, name: &str) -> (r: String)
    ensures
        r@ == (match nick {
            Some(n) => n@,
            None => match global_name {
                Some(g) => g@,
                None => name@,
            },
        }),
{
    let s = match nick {
        Some(n) => n,
        None => match global_name {
            Some(g) => g,
            None => name,
        },
    };
    crate::validation::str_to_string(s)
}

/// The custom id of a poll's button reads back as that poll and choice,
/// whenever the poll id holds no `:` (the ids the library makes are hex).
pub proof fn law_vote_id_round_trip(poll_id: Seq<char>, index: nat)
    requires
        forall|i: int| 0 <= i < poll_id.len() ==> poll_id[i] != ':',
        index <= usize::MAX,
    ensures
        vote_target_of(vote_id_text(poll_id, index)) == (VoteTargetView::Choice {
            poll_id,
            choice_index: index,
        }),
{
    reveal_strlit("vote:");
    reveal_strlit(":");
    let dec = crate::text::decimal(index);
    let id = vote_id_text(poll_id, index);
    assert(id.take(5) =~= "vote:"@);
    let rest = id.skip(5);
    assert(rest =~= poll_id + ":"@ + dec);
    let k = poll_id.len() as int;
    assert(rest[k] == ':');
    assert forall|j: int| 0 <= j < k implies rest[j] != ':' by {
        assert(rest[j] == poll_id[j]);
    }
    lemma_index_of_found(rest, ':', k);
    assert(rest.take(k) =~= poll_id);
    assert(rest.skip(k + 1) =~= dec);
    crate::text::lemma_decimal_parses_back(index, usize::MAX as nat);
}

} // verus!
