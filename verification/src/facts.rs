//! Helpers of the facts tool.
use vstd::prelude::*;
use crate::l2::Fact;
use crate::text::{
    ascii_lower, ascii_lower_char, chars_of, clone_opt_string, clone_strings, push_char,
    string_of_range, trim, trim_bounds,
};

verus! {

/// `s` when it has at most `n` characters, otherwise its first `n`
/// characters followed by an ellipsis.
pub open spec fn truncate_text(s: Seq<char>, n: nat) -> Seq<char> {
    if s.len() <= n {
        s
    } else {
        s.take(n as int).push('…')
    }
}

/// Shortens a text for a one-line listing.
pub fn truncate(s: &str, n: usize) -> (r: String)
    ensures
        r@ == truncate_text(s@, n as nat),
{
    let cs = chars_of(s);
    if cs.len() <= n {
        String::from_str(s)
    } else {
        let mut out = string_of_range(cs.as_slice(), 0, n);
        push_char(&mut out, '…');
        assert(cs@.subrange(0, n as int) =~= cs@.take(n as int));
        out
    }
}

/// What the user asks for a draft under validation.
#[derive(Debug, Clone, Copy, PartialEq, Eq, Structural)]
pub enum ReviewAction {
    /// `y`: validate the draft.
    Validate,
    /// `n`: delete the draft.
    Delete,
    /// `e`: edit the payload, then validate.
    Edit,
    /// `s`: leave the draft for later.
    Skip,
    /// `q`: stop the review.
    Quit,
}

/// The action a letter stands for, in either case.
pub open spec fn review_letter(c: char) -> Option<ReviewAction> {
    if c == 'y' || c == 'Y' {
        Some(ReviewAction::Validate)
    } else if c == 'n' || c == 'N' {
        Some(ReviewAction::Delete)
    } else if c == 'e' || c == 'E' {
        Some(ReviewAction::Edit)
    } else if c == 's' || c == 'S' {
        Some(ReviewAction::Skip)
    } else if c == 'q' || c == 'Q' {
        Some(ReviewAction::Quit)
    } else {
        None
    }
}

/// The action of an answer (already trimmed): a single letter among
/// `y n e s q`; `None` for anything else.
pub open spec fn review_action_of(t: Seq<char>) -> Option<ReviewAction> {
    if t.len() == 1 {
        review_letter(t[0])
    } else {
        None
    }
}

/// Reads the answer given for a draft: the line, trimmed, is one of
/// `y n e s q` in either case; anything else is refused (`None`) and asked
/// again.
pub fn review_answer(line: &str) -> (r: Option<ReviewAction>)
    ensures
        r == review_action_of(trim(line@)),
{
    let cs = chars_of(line);
    let (lo, hi) = trim_bounds(cs.as_slice());
    if hi - lo != 1 {
        return None;
    }
    let c = cs[lo];
    assert(cs@.subrange(lo as int, hi as int)[0] == c);
    if c == 'y' || c == 'Y' {
        Some(ReviewAction::Validate)
    } else if c == 'n' || c == 'N' {
        Some(ReviewAction::Delete)
    } else if c == 'e' || c == 'E' {
        Some(ReviewAction::Edit)
    } else if c == 's' || c == 'S' {
        Some(ReviewAction::Skip)
    } else if c == 'q' || c == 'Q' {
        Some(ReviewAction::Quit)
    } else {
        None
    }
}

/// What a decision on a draft does to the stored facts.
#[derive(Debug)]
pub enum ReviewEffect {
    /// Store this fact in place of the draft: the same fact, validated.
    Validate(Fact),
    /// Delete the draft `(id, version)` and its sources.
    Delete { id: String, version: i64 },
    /// Store `fact`, the next version, with `sources`; the earlier version
    /// stays, so the history remains accessible.
    NewVersion { fact: Fact, sources: Vec<String> },
    /// Leave everything as it is.
    Nothing,
}

/// What the decision `action` on the draft `fact` (with its sources) does,
/// at `now`, with `edited_payload` the payload written by the user when
/// editing:
/// - validating sets `validated_at` to `now`, nothing else;
/// - deleting removes that version of the fact;
/// - editing with a payload records a new version (`version + 1`) with that
///   payload, validated at `now`, with the same sources, and removes
///   nothing: the edited draft stays in the history, superseded;
/// - editing without a payload, skipping and quitting change nothing.
pub fn review_effect(
    fact: &Fact,
    sources: &Vec<String>,
    action: ReviewAction,
    now: &String,
    edited_payload: Option<String>,
) -> (r: ReviewEffect)
    requires
        action == ReviewAction::Edit && edited_payload is Some ==> fact.version < i64::MAX,
    ensures
        action == ReviewAction::Validate ==> r == ReviewEffect::Validate(
            Fact { validated_at: Some(*now), ..*fact },
        ),
        action == ReviewAction::Delete ==> (r matches ReviewEffect::Delete { id, version } && id
            == fact.id && version == fact.version),
        action == ReviewAction::Edit && edited_payload is Some ==> (
        r matches ReviewEffect::NewVersion { fact: f, sources: s } && f == (Fact {
            version: (fact.version + 1) as i64,
            payload: edited_payload.unwrap(),
            validated_at: Some(*now),
            ..*fact
        }) && s@ == sources@),
        action == ReviewAction::Edit && edited_payload is None ==> r == ReviewEffect::Nothing,
        action == ReviewAction::Skip || action == ReviewAction::Quit ==> r == ReviewEffect::Nothing,
{
    match action {
        ReviewAction::Validate => ReviewEffect::Validate(
            Fact {
                id: fact.id.clone(),
                version: fact.version,
                fact_type: fact.fact_type.clone(),
                payload: fact.payload.clone(),
                block_id: clone_opt_string(&fact.block_id),
                sensitivity: fact.sensitivity,
                created_at: fact.created_at.clone(),
                validated_at: Some(now.clone()),
            },
        ),
        ReviewAction::Delete => ReviewEffect::Delete { id: fact.id.clone(), version: fact.version },
        ReviewAction::Edit => match edited_payload {
            Some(payload) => ReviewEffect::NewVersion {
                fact: Fact {
                    id: fact.id.clone(),
                    version: fact.version + 1,
                    fact_type: fact.fact_type.clone(),
                    payload,
                    block_id: clone_opt_string(&fact.block_id),
                    sensitivity: fact.sensitivity,
                    created_at: fact.created_at.clone(),
                    validated_at: Some(now.clone()),
                },
                sources: clone_strings(sources),
            },
            None => ReviewEffect::Nothing,
        },
        ReviewAction::Skip => ReviewEffect::Nothing,
        ReviewAction::Quit => ReviewEffect::Nothing,
    }
}

/// Answers do not depend on case: a letter means what its lower-case form
/// means.
pub proof fn lemma_review_letter_ignores_case(c: char)
    ensures
        review_letter(c) == review_letter(ascii_lower_char(c)),
        review_letter('y') == Some(ReviewAction::Validate),
        review_letter('n') == Some(ReviewAction::Delete),
        review_letter('e') == Some(ReviewAction::Edit),
        review_letter('s') == Some(ReviewAction::Skip),
        review_letter('q') == Some(ReviewAction::Quit),
{
}

/// A trimmed answer means what its lower-case form means.
pub proof fn lemma_review_answer_ignores_case(t: Seq<char>)
    ensures
        review_action_of(t) == review_action_of(ascii_lower(t)),
{
    if t.len() == 1 {
        assert(ascii_lower(t)[0] == ascii_lower_char(t[0]));
        lemma_review_letter_ignores_case(t[0]);
    }
}

} // verus!
