//! The choices a poll offers.
use vstd::prelude::*;

use crate::text::{
    chars_of, is_whitespace, join_with, lemma_split_on_append, lemma_split_on_chars,
    lemma_split_on_whole, lemma_trim_chars, lemma_trim_ends, lemma_trim_fixed, lemma_trim_twice,
    lowercase, split_chars, split_on, strings_view, to_lowercase, trim, trim_bounds, trim_end,
    trim_start,
};
use crate::validation::{
    clean_text, clean_text_outcome, neutralize, neutralized_char, ValidationError, ValidationFailure,
};

verus! {

pub const MAX_CHOICE_LEN: usize = 60;

pub const MAX_CHOICES: usize = 25;

/// The choices used when none are given: `yes`, `no`, `maybe`.
pub open spec fn default_choice_labels() -> Seq<Seq<char>> {
    seq!["yes"@, "no"@, "maybe"@]
}

pub fn default_choices() -> (r: Vec<String>)
    ensures
        r@.len() == 3,
        forall|i: int| 0 <= i < 3 ==> (#[trigger] r@[i])@ == default_choice_labels()[i],
{
    let mut r: Vec<String> = Vec::new();
    r.push(crate::validation::str_to_string("yes"));
    r.push(crate::validation::str_to_string("no"));
    r.push(crate::validation::str_to_string("maybe"));
    r
}

/// Why a list of choices was refused.
#[derive(Debug)]
pub enum ChoicesError {
    Invalid(ValidationError),
    TooFew,
    TooMany,
    NotUnique,
}

pub enum ChoicesFailure {
    Invalid(ValidationFailure),
    TooFew,
    TooMany,
    NotUnique,
}

impl View for ChoicesError {
    type V = ChoicesFailure;

    open spec fn view(&self) -> ChoicesFailure {
        match self {
            ChoicesError::Invalid(e) => ChoicesFailure::Invalid(e@),
            ChoicesError::TooFew => ChoicesFailure::TooFew,
            ChoicesError::TooMany => ChoicesFailure::TooMany,
            ChoicesError::NotUnique => ChoicesFailure::NotUnique,
        }
    }
}

impl ChoicesFailure {
    pub open spec fn message(self) -> Seq<char> {
        match self {
            ChoicesFailure::Invalid(e) => e.message(),
            ChoicesFailure::TooFew => "provide at least two comma-separated choices"@,
            ChoicesFailure::TooMany => "Discord buttons support at most 25 choices"@,
            ChoicesFailure::NotUnique => "choice labels must be unique"@,
        }
    }
}

impl ChoicesError {
    /// The text shown to the user.
    pub fn message(&self) -> (m: String)
        ensures
            m@ == self@.message(),
    {
        match self {
            ChoicesError::Invalid(e) => e.message(),
            ChoicesError::TooFew => crate::validation::str_to_string(
                "provide at least two comma-separated choices",
            ),
            ChoicesError::TooMany => crate::validation::str_to_string(
                "Discord buttons support at most 25 choices",
            ),
            ChoicesError::NotUnique => crate::validation::str_to_string(
                "choice labels must be unique",
            ),
        }
    }
}

/// The trimmed, non-empty pieces, in order.
pub open spec fn trimmed_nonempty(pieces: Seq<Seq<char>>) -> Seq<Seq<char>>
    decreases pieces.len(),
{
    if pieces.len() == 0 {
        Seq::empty()
    } else {
        let r = trimmed_nonempty(pieces.drop_last());
        let t = trim(pieces.last());
        if t.len() > 0 {
            r.push(t)
        } else {
            r
        }
    }
}

/// The comma-separated pieces of `value`, trimmed, empty ones dropped.
pub open spec fn choice_candidates(value: Seq<char>) -> Seq<Seq<char>> {
    trimmed_nonempty(split_on(value, ','))
}

/// Each candidate cleaned as a choice label; the first refusal, in order,
/// is the outcome when there is one.
pub open spec fn cleaned_choices(cands: Seq<Seq<char>>) -> Result<Seq<Seq<char>>, ValidationFailure>
    decreases cands.len(),
{
    if cands.len() == 0 {
        Ok(Seq::empty())
    } else {
        match cleaned_choices(cands.drop_last()) {
            Err(e) => Err(e),
            Ok(prev) => match clean_text_outcome(cands.last(), "choice"@, MAX_CHOICE_LEN as nat) {
                Err(e) => Err(e),
                Ok(c) => Ok(prev.push(c)),
            },
        }
    }
}

/// Two labels are the same when lowercased.
pub open spec fn has_duplicate_label(cs: Seq<Seq<char>>) -> bool {
    exists|i: int, j: int|
        0 <= i < j < cs.len() && #[trigger] lowercase(cs[i]) == #[trigger] lowercase(cs[j])
}

/// What `parse_choices` gives for a comma-separated list.
pub open spec fn parse_choices_outcome(value: Seq<char>) -> Result<Seq<Seq<char>>, ChoicesFailure> {
    match cleaned_choices(choice_candidates(value)) {
        Err(e) => Err(ChoicesFailure::Invalid(e)),
        Ok(cs) => if cs.len() < 2 {
            Err(ChoicesFailure::TooFew)
        } else if cs.len() > MAX_CHOICES {
            Err(ChoicesFailure::TooMany)
        } else if has_duplicate_label(cs) {
            Err(ChoicesFailure::NotUnique)
        } else {
            Ok(cs)
        },
    }
}

pub open spec fn choices_result_view(r: Result<Vec<String>, ChoicesError>) -> Result<
    Seq<Seq<char>>,
    ChoicesFailure,
> {
    match r {
        Ok(v) => Ok(strings_view(v@)),
        Err(e) => Err(e@),
    }
}

proof fn lemma_trimmed_nonempty_step(pieces: Seq<Seq<char>>, i: int)
    requires
        0 <= i < pieces.len(),
    ensures
        trimmed_nonempty(pieces.take(i + 1)) == (if trim(pieces[i]).len() > 0 {
            trimmed_nonempty(pieces.take(i)).push(trim(pieces[i]))
        } else {
            trimmed_nonempty(pieces.take(i))
        }),
{
    assert(pieces.take(i + 1).drop_last() =~= pieces.take(i));
    assert(pieces.take(i + 1).last() == pieces[i]);
}

pub fn parse_choices(value: &str) -> (r: Result<Vec<String>, ChoicesError>)
    ensures
        choices_result_view(r) == parse_choices_outcome(value@),
{
    let chars = chars_of(value);
    let pieces = split_chars(&chars, ',');
    let ghost spec_pieces = split_on(value@, ',');
    assert(spec_pieces.len() == pieces@.len());
    let mut out: Vec<String> = Vec::new();
    let mut i: usize = 0;
    assert(spec_pieces.take(0) =~= Seq::<Seq<char>>::empty());
    assert(strings_view(out@) =~= Seq::<Seq<char>>::empty());
    while i < pieces.len()
        invariant
            i <= pieces@.len() == spec_pieces.len(),
            spec_pieces == split_on(value@, ','),
            forall|k: int| 0 <= k < pieces@.len() ==> (#[trigger] pieces@[k])@ == spec_pieces[k],
            cleaned_choices(trimmed_nonempty(spec_pieces.take(i as int))) == Ok::<
                Seq<Seq<char>>,
                ValidationFailure,
            >(strings_view(out@)),
        decreases pieces@.len() - i,
    {
        let (a, b) = trim_bounds(&pieces[i]);
        proof {
            lemma_trimmed_nonempty_step(spec_pieces, i as int);
        }
        let ghost t = pieces@[i as int]@.subrange(a as int, b as int);
        assert(t == trim(spec_pieces[i as int]));
        if a < b {
            let piece = crate::text::string_of_range(&pieces[i], a, b);
            proof {
                let cands = trimmed_nonempty(spec_pieces.take(i + 1));
                assert(cands.drop_last() == trimmed_nonempty(spec_pieces.take(i as int)));
                assert(cands.last() == t);
            }
            match clean_text(piece, "choice", MAX_CHOICE_LEN) {
                Ok(c) => {
                    let ghost prev = out@;
                    let ghost cv = c@;
                    proof {
                        let cands = trimmed_nonempty(spec_pieces.take(i + 1));
                        assert(clean_text_outcome(cands.last(), "choice"@, MAX_CHOICE_LEN as nat)
                            == Ok::<Seq<char>, ValidationFailure>(cv));
                        assert(cleaned_choices(cands) == Ok::<Seq<Seq<char>>, ValidationFailure>(
                            strings_view(prev).push(cv),
                        ));
                    }
                    out.push(c);
                    assert(strings_view(out@) =~= strings_view(prev).push(cv));
                },
                Err(e) => {
                    proof {
                        let cands = trimmed_nonempty(spec_pieces.take(i + 1));
                        assert(cleaned_choices(cands) == Err::<Seq<Seq<char>>, ValidationFailure>(
                            e@,
                        ));
                        lemma_cleaned_choices_extend(spec_pieces, i + 1);
                    }
                    return Err(ChoicesError::Invalid(e));
                },
            }
        }
        i += 1;
    }
    assert(spec_pieces.take(i as int) =~= spec_pieces);
    let ghost cs = strings_view(out@);
    if out.len() < 2 {
        return Err(ChoicesError::TooFew);
    }
    if out.len() > MAX_CHOICES {
        return Err(ChoicesError::TooMany);
    }
    let mut lowered: Vec<String> = Vec::new();
    let mut k: usize = 0;
    while k < out.len()
        invariant
            k <= out@.len(),
            2 <= out@.len() <= MAX_CHOICES,
            cleaned_choices(choice_candidates(value@)) == Ok::<Seq<Seq<char>>, ValidationFailure>(
                strings_view(out@),
            ),
            lowered@.len() == k,
            forall|m: int| 0 <= m < k ==> (#[trigger] lowered@[m])@ == lowercase(out@[m]@),
        decreases out@.len() - k,
    {
        lowered.push(to_lowercase(out[k].as_str()));
        k += 1;
    }
    let mut j: usize = 0;
    while j < lowered.len()
        invariant
            lowered@.len() == out@.len(),
            2 <= out@.len() <= MAX_CHOICES,
            cleaned_choices(choice_candidates(value@)) == Ok::<Seq<Seq<char>>, ValidationFailure>(
                strings_view(out@),
            ),
            forall|m: int| 0 <= m < lowered@.len() ==> (#[trigger] lowered@[m])@ == lowercase(
                out@[m]@,
            ),
            j <= lowered@.len(),
            forall|p: int, q: int|
                0 <= p < q < j ==> lowercase(#[trigger] out@[p]@) != lowercase(
                    #[trigger] out@[q]@,
                ),
        decreases lowered@.len() - j,
    {
        let mut p: usize = 0;
        while p < j
            invariant
                lowered@.len() == out@.len(),
                2 <= out@.len() <= MAX_CHOICES,
                cleaned_choices(choice_candidates(value@)) == Ok::<
                    Seq<Seq<char>>,
                    ValidationFailure,
                >(strings_view(out@)),
                forall|m: int| 0 <= m < lowered@.len() ==> (#[trigger] lowered@[m])@ == lowercase(
                    out@[m]@,
                ),
                p <= j < lowered@.len(),
                forall|pp: int| 0 <= pp < p ==> lowercase(#[trigger] out@[pp]@) != lowercase(
                    out@[j as int]@,
                ),
            decreases j - p,
        {
            if lowered[p] == lowered[j] {
                proof {
                    let cs = strings_view(out@);
                    assert(cs[p as int] == out@[p as int]@);
                    assert(cs[j as int] == out@[j as int]@);
                    assert(lowercase(cs[p as int]) == lowercase(cs[j as int]));
                    assert(has_duplicate_label(cs));
                }
                return Err(ChoicesError::NotUnique);
            }
            p += 1;
        }
        j += 1;
    }
    proof {
        if has_duplicate_label(cs) {
            let (p, q) = choose|p: int, q: int|
                0 <= p < q < cs.len() && #[trigger] lowercase(cs[p]) == #[trigger] lowercase(cs[q]);
            assert(cs[p] == out@[p]@);
            assert(cs[q] == out@[q]@);
        }
    }
    Ok(out)
}

proof fn lemma_cleaned_choices_extend(pieces: Seq<Seq<char>>, i: int)
    requires
        0 <= i <= pieces.len(),
        cleaned_choices(trimmed_nonempty(pieces.take(i))) is Err,
    ensures
        cleaned_choices(trimmed_nonempty(pieces)) == cleaned_choices(
            trimmed_nonempty(pieces.take(i)),
        ),
    decreases pieces.len() - i,
{
    if i < pieces.len() {
        lemma_trimmed_nonempty_step(pieces, i);
        let x = trimmed_nonempty(pieces.take(i));
        let t = trim(pieces[i]);
        assert(x.push(t).drop_last() =~= x);
        lemma_cleaned_choices_extend(pieces, i + 1);
    } else {
        assert(pieces.take(i) =~= pieces);
    }
}

/// An accepted list has between two and the limit of choices, each one a
/// cleaned label, none equal to another when lowercased.
pub proof fn law_parsed_choices_are_usable(value: Seq<char>)
    ensures
        parse_choices_outcome(value) matches Ok(cs) ==> {
            &&& 2 <= cs.len() <= MAX_CHOICES
            &&& forall|i: int, j: int|
                0 <= i < j < cs.len() ==> lowercase(#[trigger] cs[i]) != lowercase(#[trigger] cs[j])
        },
{
}

/// A piece cleaned as a choice label, when it is accepted.
pub open spec fn cleaned_label(piece: Seq<char>) -> Seq<char> {
    match clean_text_outcome(piece, "choice"@, MAX_CHOICE_LEN as nat) {
        Ok(c) => c,
        Err(_) => Seq::empty(),
    }
}

proof fn lemma_cleaned_choices_each(cands: Seq<Seq<char>>)
    ensures
        (cleaned_choices(cands) is Ok) <==> (forall|k: int|
            0 <= k < cands.len() ==> #[trigger] clean_text_outcome(
                cands[k],
                "choice"@,
                MAX_CHOICE_LEN as nat,
            ) is Ok),
        cleaned_choices(cands) matches Ok(cs) ==> cs.len() == cands.len() && forall|k: int|
            0 <= k < cands.len() ==> #[trigger] cs[k] == cleaned_label(cands[k]),
    decreases cands.len(),
{
    if cands.len() > 0 {
        let p = cands.drop_last();
        lemma_cleaned_choices_each(p);
        let last = cands.len() - 1;
        assert(cands[last] == cands.last());
        assert forall|k: int| 0 <= k < p.len() implies p[k] == cands[k] by {}
        if cleaned_choices(p) is Ok && !(clean_text_outcome(
            cands.last(),
            "choice"@,
            MAX_CHOICE_LEN as nat,
        ) is Ok) {
            assert(!(clean_text_outcome(cands[last], "choice"@, MAX_CHOICE_LEN as nat) is Ok));
        }
        if !(cleaned_choices(p) is Ok) {
            let k = choose|k: int|
                0 <= k < p.len() && !(#[trigger] clean_text_outcome(
                    p[k],
                    "choice"@,
                    MAX_CHOICE_LEN as nat,
                ) is Ok);
            assert(!(clean_text_outcome(cands[k], "choice"@, MAX_CHOICE_LEN as nat) is Ok));
        }
    }
}

/// A list is accepted exactly when every non-blank comma-separated piece is
/// accepted as a choice label, there are two to the limit of them, and no
/// two labels are the same when lowercased; the choices are then those
/// labels, in the order of the pieces.
pub proof fn law_parse_choices_exact(value: Seq<char>)
    ensures
        ({
            let pieces = choice_candidates(value);
            &&& (parse_choices_outcome(value) is Ok) <==> {
                &&& forall|k: int|
                    0 <= k < pieces.len() ==> #[trigger] clean_text_outcome(
                        pieces[k],
                        "choice"@,
                        MAX_CHOICE_LEN as nat,
                    ) is Ok
                &&& 2 <= pieces.len() <= MAX_CHOICES
                &&& forall|i: int, j: int|
                    0 <= i < j < pieces.len() ==> lowercase(cleaned_label(#[trigger] pieces[i]))
                        != lowercase(cleaned_label(#[trigger] pieces[j]))
            }
            &&& parse_choices_outcome(value) matches Ok(cs) ==> cs.len() == pieces.len()
                && forall|k: int| 0 <= k < pieces.len() ==> #[trigger] cs[k] == cleaned_label(
                pieces[k],
            )
        }),
{
    let pieces = choice_candidates(value);
    lemma_cleaned_choices_each(pieces);
    if let Ok(cs) = cleaned_choices(pieces) {
        if has_duplicate_label(cs) {
            let (i, j) = choose|i: int, j: int|
                0 <= i < j < cs.len() && #[trigger] lowercase(cs[i]) == #[trigger] lowercase(cs[j]);
            assert(cs[i] == cleaned_label(pieces[i]) && cs[j] == cleaned_label(pieces[j]));
        } else {
            assert forall|i: int, j: int| 0 <= i < j < pieces.len() implies lowercase(
                cleaned_label(#[trigger] pieces[i]),
            ) != lowercase(cleaned_label(#[trigger] pieces[j])) by {
                assert(cs[i] == cleaned_label(pieces[i]) && cs[j] == cleaned_label(pieces[j]));
                if lowercase(cs[i]) == lowercase(cs[j]) {
                    assert(has_duplicate_label(cs));
                }
            }
        }
    }
}


/// The pieces of a list joined with `, `, as a split at commas sees them:
/// the first as it is, each later one after a space.
pub open spec fn spaced(cs: Seq<Seq<char>>) -> Seq<Seq<char>> {
    Seq::new(cs.len(), |k: int| if k == 0 { cs[0] } else { seq![' '] + cs[k] })
}

proof fn lemma_split_join(cs: Seq<Seq<char>>)
    requires
        cs.len() >= 1,
        forall|k: int| 0 <= k < cs.len() ==> !(#[trigger] cs[k]).contains(','),
    ensures
        split_on(join_with(cs, ", "@), ',') == spaced(cs),
    decreases cs.len(),
{
    reveal_strlit(", ");
    if cs.len() == 1 {
        assert(!cs[0].contains(','));
        lemma_split_on_whole(cs[0], ',');
        assert(spaced(cs) =~= seq![cs[0]]);
    } else {
        let d = cs.drop_last();
        assert forall|k: int| 0 <= k < d.len() implies !(#[trigger] d[k]).contains(',') by {
            assert(d[k] == cs[k]);
        }
        lemma_split_join(d);
        let last = cs.last();
        assert(!cs[cs.len() - 1].contains(','));
        let b = seq![' '] + last;
        assert(!b.contains(',')) by {
            if b.contains(',') {
                let j = choose|j: int| 0 <= j < b.len() && b[j] == ',';
                assert(last[j - 1] == ',');
            }
        }
        let jd = join_with(d, ", "@);
        assert(jd + ", "@ + last =~= jd + seq![','] + b);
        lemma_split_on_append(jd, b, ',');
        assert(spaced(d).push(b) =~= spaced(cs));
    }
}

proof fn lemma_trim_after_space(x: Seq<char>)
    requires
        x.len() > 0,
        !is_whitespace(x[0]),
        !is_whitespace(x.last()),
    ensures
        trim(seq![' '] + x) == x,
{
    let y = seq![' '] + x;
    assert(is_whitespace(' '));
    assert(y.drop_first() =~= x);
    assert(trim_start(y) == trim_start(x));
    lemma_trim_fixed(x);
}

proof fn lemma_trimmed_spaced(cs: Seq<Seq<char>>)
    requires
        forall|k: int|
            0 <= k < cs.len() ==> (#[trigger] cs[k]).len() > 0 && !is_whitespace(cs[k][0])
                && !is_whitespace(cs[k].last()),
    ensures
        trimmed_nonempty(spaced(cs)) == cs,
    decreases cs.len(),
{
    if cs.len() > 0 {
        let d = cs.drop_last();
        assert forall|k: int| 0 <= k < d.len() implies (#[trigger] d[k]).len() > 0
            && !is_whitespace(d[k][0]) && !is_whitespace(d[k].last()) by {
            assert(d[k] == cs[k]);
        }
        lemma_trimmed_spaced(d);
        assert(spaced(cs).drop_last() =~= spaced(d));
        let n = cs.len() - 1;
        assert(cs[n] == cs.last());
        if n == 0 {
            lemma_trim_fixed(cs[0]);
        } else {
            lemma_trim_after_space(cs[n]);
        }
        assert(d.push(cs.last()) =~= cs);
    }
}

proof fn lemma_trimmed_nonempty_facts(src: Seq<Seq<char>>, value: Seq<char>)
    requires
        forall|k: int, i: int|
            0 <= k < src.len() && 0 <= i < src[k].len() ==> value.contains(#[trigger] src[k][i])
                && src[k][i] != ',',
    ensures
        forall|k: int|
            0 <= k < trimmed_nonempty(src).len() ==> (#[trigger] trimmed_nonempty(src)[k]).len() > 0
                && trim(trimmed_nonempty(src)[k]) == trimmed_nonempty(src)[k] && forall|i: int|
                0 <= i < trimmed_nonempty(src)[k].len() ==> value.contains(
                    #[trigger] trimmed_nonempty(src)[k][i],
                ) && trimmed_nonempty(src)[k][i] != ',',
    decreases src.len(),
{
    if src.len() > 0 {
        let d = src.drop_last();
        assert forall|k: int, i: int| 0 <= k < d.len() && 0 <= i < d[k].len() implies value.contains(
            #[trigger] d[k][i],
        ) && d[k][i] != ',' by {
            assert(d[k] == src[k]);
        }
        lemma_trimmed_nonempty_facts(d, value);
        let l = src.last();
        let t = trim(l);
        lemma_trim_twice(l);
        lemma_trim_chars(l);
        assert forall|i: int| 0 <= i < t.len() implies value.contains(#[trigger] t[i]) && t[i]
            != ',' by {
            assert(l.contains(t[i]));
            let j = choose|j: int| 0 <= j < l.len() && l[j] == t[i];
            assert(src[src.len() - 1] == l);
            assert(value.contains(src[src.len() - 1][j]));
        }
        let r = trimmed_nonempty(d);
        let tn = trimmed_nonempty(src);
        assert forall|k: int| 0 <= k < tn.len() implies (#[trigger] tn[k]).len() > 0 && trim(tn[k])
            == tn[k] && forall|i: int|
            0 <= i < tn[k].len() ==> value.contains(#[trigger] tn[k][i]) && tn[k][i] != ',' by {
            if k < r.len() {
                assert(tn[k] == r[k]);
            } else {
                assert(tn[k] == t);
            }
        }
    }
}

proof fn lemma_neutralize_plain(t: Seq<char>)
    requires
        !t.contains('@'),
    ensures
        neutralize(t) == t,
    decreases t.len(),
{
    if t.len() > 0 {
        let d = t.drop_last();
        assert(!d.contains('@')) by {
            if d.contains('@') {
                let j = choose|j: int| 0 <= j < d.len() && d[j] == '@';
                assert(t[j] == '@');
            }
        }
        lemma_neutralize_plain(d);
        assert(t[t.len() - 1] == t.last());
        assert(neutralized_char(t.last()) =~= seq![t.last()]);
        assert(d + seq![t.last()] =~= t);
    }
}

/// Writing an accepted list back as its labels joined with `, ` reads back
/// the same list (for lists without `@`, which labels turn into a
/// neutralised mention).
pub proof fn law_choices_round_trip(value: Seq<char>)
    requires
        !value.contains('@'),
        parse_choices_outcome(value) is Ok,
    ensures
        parse_choices_outcome(join_with(parse_choices_outcome(value)->Ok_0, ", "@))
            == parse_choices_outcome(value),
{
    let cs = parse_choices_outcome(value)->Ok_0;
    let sp = split_on(value, ',');
    lemma_split_on_chars(value, ',');
    lemma_trimmed_nonempty_facts(sp, value);
    let pieces = choice_candidates(value);
    law_parse_choices_exact(value);
    assert forall|k: int| 0 <= k < cs.len() implies #[trigger] cs[k] == pieces[k] by {
        let p = pieces[k];
        assert(!p.contains('@')) by {
            if p.contains('@') {
                let i = choose|i: int| 0 <= i < p.len() && p[i] == '@';
                assert(value.contains(p[i]));
            }
        }
        lemma_neutralize_plain(p);
        assert(clean_text_outcome(p, "choice"@, MAX_CHOICE_LEN as nat) is Ok);
    }
    assert(cs =~= pieces);
    assert forall|k: int| 0 <= k < cs.len() implies !(#[trigger] cs[k]).contains(',') by {
        if cs[k].contains(',') {
            let i = choose|i: int| 0 <= i < cs[k].len() && cs[k][i] == ',';
            assert(pieces[k][i] != ',');
        }
    }
    assert forall|k: int| 0 <= k < cs.len() implies (#[trigger] cs[k]).len() > 0 && !is_whitespace(
        cs[k][0],
    ) && !is_whitespace(cs[k].last()) by {
        assert(pieces[k].len() > 0 && trim(pieces[k]) == pieces[k]);
        lemma_trim_ends(pieces[k]);
    }
    let v2 = join_with(cs, ", "@);
    lemma_split_join(cs);
    lemma_trimmed_spaced(cs);
    assert(choice_candidates(v2) == cs);
    lemma_cleaned_choices_each(cs);
    assert forall|k: int| 0 <= k < cs.len() implies #[trigger] clean_text_outcome(
        cs[k],
        "choice"@,
        MAX_CHOICE_LEN as nat,
    ) is Ok && cleaned_label(cs[k]) == cs[k] by {
        assert(clean_text_outcome(pieces[k], "choice"@, MAX_CHOICE_LEN as nat) is Ok);
        assert(cs[k] == cleaned_label(pieces[k]));
    }
    let c2 = cleaned_choices(cs)->Ok_0;
    assert(c2 =~= cs);
}

} // verus!
