//! Validation and cleaning of user-provided poll text.
use vstd::prelude::*;

use crate::text::{
    append_str, char_is_ascii_alphanumeric, char_is_control, chars_of, decimal, is_ascii_alphanumeric,
    is_control, lowercase, push_char, all_ascii, lemma_lowercase_ascii_twice, lemma_trim_keeps_ascii,
    push_decimal, to_lowercase, trim, trim_bounds, trim_string, is_whitespace, trim_start, trim_end,
};

verus! {

pub const MAX_TITLE_LEN: usize = 100;

pub const MAX_DESCRIPTION_LEN: usize = 800;

pub const MAX_WHEN_LEN: usize = 120;

pub const MAX_LOCATION_LEN: usize = 120;

pub const MAX_TEMPLATE_NAME_LEN: usize = 32;

/// Why a piece of user text was refused.
#[derive(Debug)]
pub enum ValidationError {
    Empty { field: String },
    TooLong { field: String, max_len: usize },
    ControlCharacters { field: String },
    TemplateNameEmpty,
    TemplateNameTooLong,
    TemplateNameCharacters,
}

/// The mathematical form of a `ValidationError`.
pub enum ValidationFailure {
    Empty { field: Seq<char> },
    TooLong { field: Seq<char>, max_len: nat },
    ControlCharacters { field: Seq<char> },
    TemplateNameEmpty,
    TemplateNameTooLong,
    TemplateNameCharacters,
}

impl View for ValidationError {
    type V = ValidationFailure;

    open spec fn view(&self) -> ValidationFailure {
        match self {
            ValidationError::Empty { field } => ValidationFailure::Empty { field: field@ },
            ValidationError::TooLong { field, max_len } => ValidationFailure::TooLong {
                field: field@,
                max_len: *max_len as nat,
            },
            ValidationError::ControlCharacters { field } => ValidationFailure::ControlCharacters {
                field: field@,
            },
            ValidationError::TemplateNameEmpty => ValidationFailure::TemplateNameEmpty,
            ValidationError::TemplateNameTooLong => ValidationFailure::TemplateNameTooLong,
            ValidationError::TemplateNameCharacters => ValidationFailure::TemplateNameCharacters,
        }
    }
}

impl ValidationFailure {
    /// The text shown to the user.
    pub open spec fn message(self) -> Seq<char> {
        match self {
            ValidationFailure::Empty { field } => field + " cannot be empty"@,
            ValidationFailure::TooLong { field, max_len } => field + " must be "@ + decimal(max_len)
                + " characters or less"@,
            ValidationFailure::ControlCharacters { field } => field
                + " contains unsupported control characters"@,
            ValidationFailure::TemplateNameEmpty => "template name cannot be empty"@,
            ValidationFailure::TemplateNameTooLong => "template name must be "@ + decimal(
                MAX_TEMPLATE_NAME_LEN as nat,
            ) + " characters or less"@,
            ValidationFailure::TemplateNameCharacters =>
                "template name can only contain letters, numbers, dashes, and underscores"@,
        }
    }
}

impl ValidationError {
    /// The text shown to the user, as `Display` would give it.
    pub fn message(&self) -> (m: String)
        ensures
            m@ == self@.message(),
    {
        let mut m = String::new();
        match self {
            ValidationError::Empty { field } => {
                append_str(&mut m, field.as_str());
                append_str(&mut m, " cannot be empty");
            },
            ValidationError::TooLong { field, max_len } => {
                append_str(&mut m, field.as_str());
                append_str(&mut m, " must be ");
                push_decimal(&mut m, *max_len as u64);
                append_str(&mut m, " characters or less");
            },
            ValidationError::ControlCharacters { field } => {
                append_str(&mut m, field.as_str());
                append_str(&mut m, " contains unsupported control characters");
            },
            ValidationError::TemplateNameEmpty => {
                append_str(&mut m, "template name cannot be empty");
            },
            ValidationError::TemplateNameTooLong => {
                append_str(&mut m, "template name must be ");
                push_decimal(&mut m, MAX_TEMPLATE_NAME_LEN as u64);
                append_str(&mut m, " characters or less");
            },
            ValidationError::TemplateNameCharacters => {
                append_str(
                    &mut m,
                    "template name can only contain letters, numbers, dashes, and underscores",
                );
            },
        }
        m
    }
}

/// The mathematical form of a validation outcome.
pub open spec fn outcome_view(r: Result<String, ValidationError>) -> Result<
    Seq<char>,
    ValidationFailure,
> {
    match r {
        Ok(s) => Ok(s@),
        Err(e) => Err(e@),
    }
}

pub open spec fn optional_outcome_view(r: Result<Option<String>, ValidationError>) -> Result<
    Option<Seq<char>>,
    ValidationFailure,
> {
    match r {
        Ok(Some(s)) => Ok(Some(s@)),
        Ok(None) => Ok(None),
        Err(e) => Err(e@),
    }
}

// ---------------------------------------------------------------------------
// Mention neutralising
// ---------------------------------------------------------------------------

/// What one character becomes: an `@` is followed by a zero-width space so
/// that it can no longer ping anyone.
pub open spec fn neutralized_char(c: char) -> Seq<char> {
    if c == '@' {
        seq!['@', '\u{200B}']
    } else {
        seq![c]
    }
}

pub open spec fn neutralize(s: Seq<char>) -> Seq<char>
    decreases s.len(),
{
    if s.len() == 0 {
        Seq::empty()
    } else {
        neutralize(s.drop_last()) + neutralized_char(s.last())
    }
}

/// Every `@` in the value is directly followed by a zero-width space.
pub open spec fn mentions_neutral(s: Seq<char>) -> bool {
    forall|i: int| 0 <= i < s.len() && #[trigger] s[i] == '@' ==> i + 1 < s.len() && s[i + 1] == '\u{200B}'
}

/// The value with every `@` replaced by `@` and a zero-width space.
fn neutralize_mentions(value: &Vec<char>, from: usize, to: usize) -> (r: String)
    requires
        from <= to <= value@.len(),
    ensures
        r@ == neutralize(value@.subrange(from as int, to as int)),
{
    let mut r = String::new();
    let mut i = from;
    assert(value@.subrange(from as int, from as int) =~= Seq::<char>::empty());
    while i < to
        invariant
            from <= i <= to <= value@.len(),
            r@ == neutralize(value@.subrange(from as int, i as int)),
        decreases to - i,
    {
        let c = value[i];
        if c == '@' {
            push_char(&mut r, '@');
            push_char(&mut r, '\u{200B}');
        } else {
            push_char(&mut r, c);
        }
        proof {
            let next = value@.subrange(from as int, i + 1);
            assert(next.drop_last() =~= value@.subrange(from as int, i as int));
            assert(next.last() == c);
            assert(r@ =~= neutralize(next));
        }
        i += 1;
    }
    r
}

pub proof fn lemma_neutralize_len(s: Seq<char>)
    ensures
        neutralize(s).len() >= s.len(),
    decreases s.len(),
{
    if s.len() > 0 {
        lemma_neutralize_len(s.drop_last());
    }
}

/// After neutralising, no `@` is left that could ping anyone.
pub proof fn lemma_neutralize_safe(s: Seq<char>)
    ensures
        mentions_neutral(neutralize(s)),
    decreases s.len(),
{
    if s.len() > 0 {
        let p = neutralize(s.drop_last());
        let q = neutralized_char(s.last());
        lemma_neutralize_safe(s.drop_last());
        let n = neutralize(s);
        assert(n == p + q);
        assert forall|i: int| 0 <= i < n.len() && #[trigger] n[i] == '@' implies i + 1 < n.len() && n[i
            + 1] == '\u{200B}' by {
            if i < p.len() {
                assert(p[i] == '@');
            } else {
                assert(q[i - p.len()] == '@');
            }
        }
    }
}

// ---------------------------------------------------------------------------
// Text fields
// ---------------------------------------------------------------------------

/// Some character is a control character other than a newline or a tab.
pub open spec fn has_unsupported_control(s: Seq<char>) -> bool {
    exists|i: int| 0 <= i < s.len() && is_control(#[trigger] s[i]) && s[i] != '\n' && s[i] != '\t'
}

/// What `clean_text` gives: the trimmed value, refused when empty, longer than
/// `max_len` characters or holding control characters, and otherwise returned
/// with its mentions neutralised.
pub open spec fn clean_text_outcome(value: Seq<char>, field: Seq<char>, max_len: nat) -> Result<
    Seq<char>,
    ValidationFailure,
> {
    let t = trim(value);
    if t.len() == 0 {
        Err(ValidationFailure::Empty { field })
    } else if t.len() > max_len {
        Err(ValidationFailure::TooLong { field, max_len })
    } else if has_unsupported_control(t) {
        Err(ValidationFailure::ControlCharacters { field })
    } else {
        Ok(neutralize(t))
    }
}

pub fn str_to_string(s: &str) -> (r: String)
    ensures
        r@ == s@,
{
    s.to_owned()
}

pub fn clean_text(value: String, field: &str, max_len: usize) -> (r: Result<String, ValidationError>)
    ensures
        outcome_view(r) == clean_text_outcome(value@, field@, max_len as nat),
{
    let v = chars_of(value.as_str());
    let (a, b) = trim_bounds(&v);
    let ghost t = v@.subrange(a as int, b as int);
    if a == b {
        return Err(ValidationError::Empty { field: str_to_string(field) });
    }
    if b - a > max_len {
        return Err(ValidationError::TooLong { field: str_to_string(field), max_len });
    }
    let mut i = a;
    while i < b
        invariant
            a <= i <= b <= v@.len(),
            t == v@.subrange(a as int, b as int),
            t == trim(value@),
            0 < t.len() <= max_len,
            forall|k: int| 0 <= k < i - a ==> !(is_control(#[trigger] t[k]) && t[k] != '\n' && t[k]
                != '\t'),
        decreases b - i,
    {
        let c = v[i];
        assert(t[i - a] == c);
        if char_is_control(c) && c != '\n' && c != '\t' {
            return Err(ValidationError::ControlCharacters { field: str_to_string(field) });
        }
        i += 1;
    }
    Ok(neutralize_mentions(&v, a, b))
}

pub fn poll_title(value: String) -> (r: Result<String, ValidationError>)
    ensures
        outcome_view(r) == clean_text_outcome(value@, "title"@, MAX_TITLE_LEN as nat),
{
    clean_text(value, "title", MAX_TITLE_LEN)
}

pub fn optional_description(value: Option<String>) -> (r: Result<Option<String>, ValidationError>)
    ensures
        value is None ==> r matches Ok(None),
        value matches Some(v) ==> match clean_text_outcome(
            v@,
            "description"@,
            MAX_DESCRIPTION_LEN as nat,
        ) {
            Ok(s) => optional_outcome_view(r) == Ok::<Option<Seq<char>>, ValidationFailure>(
                Some(s),
            ),
            Err(e) => optional_outcome_view(r) == Err::<Option<Seq<char>>, ValidationFailure>(e),
        },
{
    match value {
        None => Ok(None),
        Some(v) => match clean_text(v, "description", MAX_DESCRIPTION_LEN) {
            Ok(s) => Ok(Some(s)),
            Err(e) => Err(e),
        },
    }
}

pub fn optional_when(value: Option<String>) -> (r: Result<Option<String>, ValidationError>)
    ensures
        value is None ==> r matches Ok(None),
        value matches Some(v) ==> match clean_text_outcome(v@, "when"@, MAX_WHEN_LEN as nat) {
            Ok(s) => optional_outcome_view(r) == Ok::<Option<Seq<char>>, ValidationFailure>(
                Some(s),
            ),
            Err(e) => optional_outcome_view(r) == Err::<Option<Seq<char>>, ValidationFailure>(e),
        },
{
    match value {
        None => Ok(None),
        Some(v) => match clean_text(v, "when", MAX_WHEN_LEN) {
            Ok(s) => Ok(Some(s)),
            Err(e) => Err(e),
        },
    }
}

/// The place of an event, cleaned when given.
pub fn optional_location(value: Option<String>) -> (r: Result<Option<String>, ValidationError>)
    ensures
        value is None ==> r matches Ok(None),
        value matches Some(v) ==> match clean_text_outcome(
            v@,
            "location"@,
            MAX_LOCATION_LEN as nat,
        ) {
            Ok(s) => optional_outcome_view(r) == Ok::<Option<Seq<char>>, ValidationFailure>(
                Some(s),
            ),
            Err(e) => optional_outcome_view(r) == Err::<Option<Seq<char>>, ValidationFailure>(e),
        },
{
    match value {
        None => Ok(None),
        Some(v) => match clean_text(v, "location", MAX_LOCATION_LEN) {
            Ok(s) => Ok(Some(s)),
            Err(e) => Err(e),
        },
    }
}

/// The length in UTF-8 bytes that `str::len` reports for a string.
pub open spec fn str_byte_len(s: Seq<char>) -> usize {
    vstd::utf8::encode_utf8(s).len() as usize
}

/// A character allowed in a template name.
pub open spec fn template_char(c: char) -> bool {
    is_ascii_alphanumeric(c) || c == '-' || c == '_'
}

/// What `template_name` gives: the trimmed, lowercased value, refused when
/// empty, longer than the limit in UTF-8 bytes, or holding a character other
/// than an ASCII letter or digit, `-` or `_`.
pub open spec fn template_name_outcome(value: Seq<char>) -> Result<Seq<char>, ValidationFailure> {
    let v = lowercase(trim(value));
    if v.len() == 0 {
        Err(ValidationFailure::TemplateNameEmpty)
    } else if str_byte_len(v) > MAX_TEMPLATE_NAME_LEN {
        Err(ValidationFailure::TemplateNameTooLong)
    } else if exists|i: int| 0 <= i < v.len() && !template_char(#[trigger] v[i]) {
        Err(ValidationFailure::TemplateNameCharacters)
    } else {
        Ok(v)
    }
}

pub fn template_name(value: String) -> (r: Result<String, ValidationError>)
    ensures
        outcome_view(r) == template_name_outcome(value@),
{
    let trimmed = trim_string(value.as_str());
    let lowered = to_lowercase(trimmed.as_str());
    let s = lowered.as_str();
    if s.unicode_len() == 0 {
        return Err(ValidationError::TemplateNameEmpty);
    }
    if s.len() > MAX_TEMPLATE_NAME_LEN {
        return Err(ValidationError::TemplateNameTooLong);
    }
    let v = chars_of(s);
    let mut i: usize = 0;
    while i < v.len()
        invariant
            i <= v@.len(),
            v@ == lowercase(trim(value@)),
            v@ == lowered@,
            v@.len() > 0,
            str_byte_len(v@) <= MAX_TEMPLATE_NAME_LEN,
            forall|k: int| 0 <= k < i ==> template_char(#[trigger] v@[k]),
        decreases v@.len() - i,
    {
        let c = v[i];
        if !(char_is_ascii_alphanumeric(c) || c == '-' || c == '_') {
            assert(!template_char(v@[i as int]));
            return Err(ValidationError::TemplateNameCharacters);
        }
        i += 1;
    }
    Ok(lowered)
}

/// Whatever `clean_text` accepts is trimmed, within its limit, and free of
/// bare `@` mentions.
pub proof fn law_clean_text_is_safe(value: Seq<char>, field: Seq<char>, max_len: nat)
    ensures
        clean_text_outcome(value, field, max_len) matches Ok(s) ==> {
            &&& mentions_neutral(s)
            &&& s.len() > 0
            &&& !has_unsupported_control(trim(value))
            &&& trim(value).len() <= max_len
        },
{
    let t = trim(value);
    lemma_neutralize_safe(t);
    lemma_neutralize_len(t);
}

/// The value with each `@` and zero-width space after it turned back into
/// `@`, read from the front as `str::replace` does.
pub open spec fn restore_mentions(s: Seq<char>) -> Seq<char>
    decreases s.len(),
{
    if s.len() == 0 {
        Seq::empty()
    } else if s.len() >= 2 && s[0] == '@' && s[1] == '\u{200B}' {
        seq!['@'] + restore_mentions(s.skip(2))
    } else {
        seq![s[0]] + restore_mentions(s.skip(1))
    }
}

proof fn lemma_neutralize_append(a: Seq<char>, b: Seq<char>)
    ensures
        neutralize(a + b) == neutralize(a) + neutralize(b),
    decreases b.len(),
{
    if b.len() == 0 {
        assert(a + b =~= a);
        assert(neutralize(a) + neutralize(b) =~= neutralize(a));
    } else {
        lemma_neutralize_append(a, b.drop_last());
        assert((a + b).drop_last() =~= a + b.drop_last());
        assert(neutralize(a) + neutralize(b) =~= neutralize(a) + neutralize(b.drop_last())
            + neutralized_char(b.last()));
    }
}

proof fn lemma_restore_neutralized(t: Seq<char>)
    ensures
        restore_mentions(neutralize(t)) == t,
    decreases t.len(),
{
    if t.len() > 0 {
        let c = t[0];
        let rest = t.skip(1);
        assert(t =~= seq![c] + rest);
        lemma_neutralize_append(seq![c], rest);
        assert(seq![c].drop_last() =~= Seq::<char>::empty());
        assert(seq![c].last() == c);
        assert(neutralize(Seq::<char>::empty()) =~= Seq::<char>::empty());
        assert(neutralize(seq![c]) == neutralize(seq![c].drop_last()) + neutralized_char(
            seq![c].last(),
        ));
        assert(neutralize(seq![c]) =~= neutralized_char(c));
        let n = neutralize(t);
        lemma_restore_neutralized(rest);
        if c == '@' {
            assert(n.skip(2) =~= neutralize(rest));
        } else {
            assert(n.skip(1) =~= neutralize(rest));
        }
        assert(restore_mentions(n) =~= t);
    }
}

/// Turning each neutralised mention back into `@` gives the trimmed value
/// that `clean_text` accepted.
pub proof fn law_clean_text_restores(value: Seq<char>, field: Seq<char>, max_len: nat)
    ensures
        clean_text_outcome(value, field, max_len) matches Ok(s) ==> restore_mentions(s) == trim(
            value,
        ),
{
    lemma_restore_neutralized(trim(value));
}


/// A template name that was accepted reads back as itself: naming a template
/// by the name it was stored under gives the same name (shown for ASCII
/// input).
pub proof fn law_template_name_idempotent(value: Seq<char>)
    requires
        all_ascii(value),
        template_name_outcome(value) is Ok,
    ensures
        template_name_outcome(template_name_outcome(value)->Ok_0) == template_name_outcome(value),
{
    let t = trim(value);
    lemma_trim_keeps_ascii(value);
    lemma_lowercase_ascii_twice(t);
    let r = lowercase(t);
    assert(template_char(r[0]));
    assert(template_char(r[r.len() - 1]));
    assert(!is_whitespace(r[0]));
    assert(!is_whitespace(r.last()));
    assert(trim_start(r) == r);
    assert(trim_end(r) == r);
    assert(trim(r) == r);
}

} // verus!
