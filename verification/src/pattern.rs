//! Regular-expression matching, through the `regex` crate.
//!
//! A compiled expression is opaque to the verifier. What a search returns
//! depends on the pattern text and the haystack alone, so each kind of
//! search has a name of its own, and the importers state their results over
//! those names. A match is handed out as the list of its capture groups:
//! position 0 is the whole match, position `i` the text of group `i`, or
//! `None` where the group took no part in the match.

use crate::error::Error;
use vstd::prelude::*;

verus! {

/// The capture groups of one match, as a mathematical value.
pub type Captures = Seq<Option<Seq<char>>>;

/// Capture group `i` of a match, or `None` where the match has no such
/// group or the group took no part in it.
pub open spec fn group(captures: Captures, i: int) -> Option<Seq<char>> {
    if 0 <= i < captures.len() {
        captures[i]
    } else {
        None
    }
}

/// The text of capture group `i`, empty where the group is absent.
pub open spec fn group_text(captures: Captures, i: int) -> Seq<char> {
    match group(captures, i) {
        Some(text) => text,
        None => Seq::empty(),
    }
}

/// Capture group `i` of a match.
pub fn get_group(captures: &Vec<Option<String>>, i: usize) -> (r: Option<&String>)
    ensures
        r.deep_view() == group(captures.deep_view(), i as int),
{
    if i < captures.len() {
        assert(captures.deep_view()[i as int] == captures[i as int].deep_view());
        captures[i].as_ref()
    } else {
        None
    }
}

/// The text of capture group `i`, empty where the group is absent.
pub fn get_group_text(captures: &Vec<Option<String>>, i: usize) -> (text: String)
    ensures
        text@ == group_text(captures.deep_view(), i as int),
{
    match get_group(captures, i) {
        Some(text) => text.clone(),
        None => String::new(),
    }
}

#[verifier::external_type_specification]
#[verifier::external_body]
pub struct ExRegex(regex::Regex);

/// The pattern text that was given to `Regex::new` to build a compiled
/// expression. Every expression of this library is built by `Regex::new`,
/// without flags or other settings.
pub uninterp spec fn regex_source(re: regex::Regex) -> Seq<char>;

/// The capture groups of the leftmost match of `pattern` in `haystack`, or
/// `None` where nothing matches (`Regex::captures`).
pub uninterp spec fn regex_captures(pattern: Seq<char>, haystack: Seq<char>) -> Option<
    Seq<Option<Seq<char>>>,
>;

/// The capture groups of the successive non-overlapping matches of
/// `pattern` in `haystack`, in order (`Regex::captures_iter`).
pub uninterp spec fn regex_captures_iter(pattern: Seq<char>, haystack: Seq<char>) -> Seq<
    Seq<Option<Seq<char>>>,
>;

/// Whether `pattern` matches anywhere in `haystack` (`Regex::is_match`).
pub uninterp spec fn regex_is_match(pattern: Seq<char>, haystack: Seq<char>) -> bool;

/// Calls `Regex::new`. On success the compiled expression is built from
/// exactly the given pattern text; on failure the crate's error message is
/// handed back. Nothing is claimed about which patterns compile: the
/// crate's size limit is measured in bytes of the machine, so the same
/// pattern may compile on one machine and not on another.
#[verifier::external_body]
fn compile(pattern: &str) -> (r: Result<regex::Regex, String>)
    ensures
        r matches Ok(re) ==> regex_source(re) == pattern@,
{
    regex::Regex::new(pattern).map_err(|e| e.to_string())
}

/// Compiles a pattern of an importer. A pattern that does not compile is
/// reported with the matcher's own message.
pub fn compile_pattern(pattern: &str) -> (r: Result<regex::Regex, Error>)
    ensures
        r matches Ok(re) ==> regex_source(re) == pattern@,
        r is Err ==> r->Err_0 is Regex,
{
    match compile(pattern) {
        Ok(re) => Ok(re),
        Err(message) => Err(Error::Regex(message)),
    }
}

/// Calls `Regex::captures` and copies the groups of the match out.
/// The result is the named result for this pattern and haystack.
#[verifier::external_body]
pub(crate) fn captures(re: &regex::Regex, haystack: &str) -> (r: Option<Vec<Option<String>>>)
    ensures
        r.deep_view() == regex_captures(regex_source(*re), haystack@),
{
    re.captures(haystack).map(|c| c.iter().map(|g| g.map(|m| m.as_str().to_string())).collect())
}

/// Calls `Regex::captures_iter` and copies the groups of every match out.
/// The result is the named result for this pattern and haystack.
#[verifier::external_body]
pub(crate) fn captures_iter(re: &regex::Regex, haystack: &str) -> (r: Vec<Vec<Option<String>>>)
    ensures
        r.deep_view() == regex_captures_iter(regex_source(*re), haystack@),
{
    re.captures_iter(haystack).map(
        |c| c.iter().map(|g| g.map(|m| m.as_str().to_string())).collect(),
    ).collect()
}

/// Calls `Regex::is_match`. The result is the named result for this
/// pattern and haystack.
#[verifier::external_body]
pub(crate) fn is_match(re: &regex::Regex, haystack: &str) -> (r: bool)
    ensures
        r == regex_is_match(regex_source(*re), haystack@),
{
    re.is_match(haystack)
}

/// The lower-case form of a text, as the standard library's
/// `str::to_lowercase` gives it.
pub uninterp spec fn lowercased(text: Seq<char>) -> Seq<char>;

/// Calls `str::to_lowercase`. The mapping follows the Unicode tables of the
/// standard library; the result is the named result for this text.
#[verifier::external_body]
pub(crate) fn lowercase(text: &str) -> (lower: String)
    ensures
        lower@ == lowercased(text@),
{
    text.to_lowercase()
}

} // verus!
