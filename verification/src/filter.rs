//! Selection of processes by the name of a user.

use vstd::prelude::*;
use crate::process::{Process, ProcessView};

verus! {

/// What a search for the regular expression `pattern` in `text` gives:
/// whether it matches somewhere, or `None` where `pattern` is no regular
/// expression that the engine accepts.
pub uninterp spec fn regex_search(pattern: Seq<char>, text: Seq<char>) -> Option<bool>;

/// `regex::Regex::new`, then `Regex::is_match` on the compiled expression:
/// the result is the one that `regex_search` names for the two texts, `None`
/// where `Regex::new` returns an error. Nothing is claimed of which patterns
/// compile or match.
#[verifier::external_body]
fn search(pattern: &str, text: &str) -> (found: Option<bool>)
    ensures
        found == regex_search(pattern@, text@),
{
    match regex::Regex::new(pattern) {
        Ok(expression) => Some(expression.is_match(text)),
        Err(_) => None,
    }
}

/// The answer for a process from the two searches in its user names: it is
/// kept when either name matches; there is no answer where a search had none.
pub open spec fn verdict(subject: Option<bool>, target: Option<bool>) -> Option<bool> {
    match (subject, target) {
        (Some(a), Some(b)) => Some(a || b),
        _ => None,
    }
}

/// Combines the searches in the subject's and the target's user name.
pub fn either_matches(subject: Option<bool>, target: Option<bool>) -> (kept: Option<bool>)
    ensures
        kept == verdict(subject, target),
{
    match (subject, target) {
        (Some(a), Some(b)) => Some(a || b),
        _ => None,
    }
}

/// The pattern that finds `username` whatever the case of its letters.
pub open spec fn ignoring_case(username: Seq<char>) -> Seq<char> {
    "(?i)"@ + username
}

/// The answer of the filter `username` for a process with these fields.
pub open spec fn keeps(username: Option<Seq<char>>, process: ProcessView) -> Option<bool> {
    match username {
        None => Some(true),
        Some(name) => verdict(
            regex_search(ignoring_case(name), process.subject_user_name),
            regex_search(ignoring_case(name), process.target_user_name),
        ),
    }
}

/// Whether `username`, read as a regular expression without regard to case,
/// is usable at all: whether a search with it has an answer.
pub open spec fn usable(username: Option<Seq<char>>) -> bool {
    match username {
        None => true,
        Some(name) => regex_search(ignoring_case(name), Seq::<char>::empty()) is Some,
    }
}

/// The view of an optional text.
pub open spec fn optional_text(text: Option<&str>) -> Option<Seq<char>> {
    match text {
        Some(s) => Some(s@),
        None => None,
    }
}

/// Tells whether `username` can be used as a filter.
pub fn is_usable(username: Option<&str>) -> (ok: bool)
    ensures
        ok == usable(optional_text(username)),
{
    match username {
        None => true,
        Some(name) => {
            let pattern = String::from_str("(?i)").concat(name);
            let empty = String::new();
            search(pattern.as_str(), empty.as_str()).is_some()
        },
    }
}

/// Tells whether `process` was started by or for a user whose name matches
/// `username`; without a `username` every process is kept.
pub fn has_username(username: Option<&str>, process: &Process) -> (kept: Option<bool>)
    ensures
        kept == keeps(optional_text(username), process@),
{
    match username {
        None => Some(true),
        Some(name) => {
            let pattern = String::from_str("(?i)").concat(name);
            let subject = search(pattern.as_str(), process.subject_user_name.as_str());
            let target = search(pattern.as_str(), process.target_user_name.as_str());
            either_matches(subject, target)
        },
    }
}

} // verus!
