//! The one recovery there is: a failure that speaks of a password is answered
//! by asking for one and trying once more.

use crate::error::{ArchiveError, ErrorView};
use crate::paths::chars_of;
use vstd::prelude::*;

verus! {

/// Whether `word` stands in `text` at index `at`.
pub open spec fn occurs_at(text: Seq<char>, word: Seq<char>, at: int) -> bool {
    0 <= at && at + word.len() <= text.len() && text.subrange(at, at + word.len()) == word
}

/// Whether `word` stands somewhere in `text`.
pub open spec fn contains_word(text: Seq<char>, word: Seq<char>) -> bool {
    exists|at: int| occurs_at(text, word, at)
}

/// The letters by which a message is taken to speak of a password.
pub open spec fn password_mark() -> Seq<char> {
    seq!['P', 'a', 's', 's']
}

/// Whether a message speaks of a password.
pub open spec fn mentions_password(text: Seq<char>) -> bool {
    contains_word(text, password_mark())
}

/// Which attempt at an extraction has just ended.
#[derive(Clone, Copy, Debug, PartialEq, Eq, Structural)]
pub enum Attempt {
    First,
    Second,
}

/// What follows an attempt.
#[derive(Clone, Copy, Debug, PartialEq, Eq, Structural)]
pub enum NextStep {
    /// The outcome stands.
    Finish,
    /// Ask for a password and extract once more with it.
    AskPassword,
}

/// What has to follow an attempt that ended in `outcome`.
pub open spec fn step_after(attempt: Attempt, outcome: Result<(), ErrorView>) -> NextStep {
    match outcome {
        Err(e) if attempt is First && mentions_password(e.text()) => NextStep::AskPassword,
        _ => NextStep::Finish,
    }
}

/// The view of an extraction's outcome.
pub open spec fn outcome_view(outcome: Result<(), ArchiveError>) -> Result<(), ErrorView> {
    match outcome {
        Ok(()) => Ok(()),
        Err(e) => Err(e@),
    }
}

fn occurs_here(text: &Vec<char>, word: &Vec<char>, at: usize) -> (b: bool)
    requires
        at + word.len() <= text.len(),
    ensures
        b == occurs_at(text@, word@, at as int),
{
    let ghost window = text@.subrange(at as int, at + word.len());
    let mut j: usize = 0;
    while j < word.len()
        invariant
            at + word.len() <= text.len(),
            window == text@.subrange(at as int, at + word.len()),
            j <= word.len(),
            forall|k: int| 0 <= k < j ==> window[k] == word@[k],
        decreases word.len() - j,
    {
        if text[at + j] != word[j] {
            assert(window[j as int] != word@[j as int]);
            return false;
        }
        j += 1;
    }
    assert(window =~= word@);
    true
}

/// Whether `word` stands somewhere in `text`.
pub fn contains(text: &str, word: &str) -> (b: bool)
    ensures
        b == contains_word(text@, word@),
{
    let t = chars_of(text);
    let w = chars_of(word);
    if w.len() == 0 {
        assert(occurs_at(t@, w@, 0)) by {
            assert(t@.subrange(0, 0) =~= w@);
        }
        return true;
    }
    if w.len() > t.len() {
        return false;
    }
    let last: usize = t.len() - w.len();
    let mut at: usize = 0;
    while at <= last
        invariant
            t@ == text@,
            w@ == word@,
            w.len() > 0,
            last + w.len() == t.len(),
            at <= last + 1,
            forall|k: int| 0 <= k < at ==> !occurs_at(t@, w@, k),
        decreases last + 1 - at,
    {
        if occurs_here(&t, &w, at) {
            return true;
        }
        at += 1;
    }
    false
}

/// Whether the message of `error` speaks of a password.
pub fn is_password_error(error: &ArchiveError) -> (b: bool)
    ensures
        b == mentions_password(error@.text()),
{
    let text = error.message();
    proof {
        reveal_strlit("Pass");
        assert("Pass"@ == password_mark());
    }
    contains(text.as_str(), "Pass")
}

/// What has to follow an attempt that ended in `outcome`: after the first
/// attempt a failure that speaks of a password asks for one; the second
/// attempt's outcome stands whatever it is.
pub fn after_attempt(attempt: Attempt, outcome: &Result<(), ArchiveError>) -> (step: NextStep)
    ensures
        step == step_after(attempt, outcome_view(*outcome)),
{
    match (attempt, outcome) {
        (Attempt::First, Err(e)) => {
            if is_password_error(e) {
                NextStep::AskPassword
            } else {
                NextStep::Finish
            }
        },
        _ => NextStep::Finish,
    }
}

} // verus!
