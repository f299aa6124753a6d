//! Regular expressions through the `regex` crate.

use vstd::prelude::*;

use crate::text::opt_chars;

verus! {

/// Whether `regex::Regex::new` accepts the pattern.
pub uninterp spec fn regex_valid(pattern: Seq<char>) -> bool;

/// Whether the compiled pattern matches somewhere in the text (`is_match`).
pub uninterp spec fn regex_finds(pattern: Seq<char>, text: Seq<char>) -> bool;

/// The text of capture group 1 of the leftmost match, when there is a match
/// and the group took part in it.
pub uninterp spec fn regex_group1(pattern: Seq<char>, text: Seq<char>) -> Option<Seq<char>>;

/// Compiles `pattern` and tests it on `text`; `None` when the pattern does
/// not compile. Matching is named, not described.
#[verifier::external_body]
pub fn regex_search(pattern: &str, text: &str) -> (r: Option<bool>)
    ensures
        r is Some <==> regex_valid(pattern@),
        r matches Some(b) ==> b == regex_finds(pattern@, text@),
{
    regex::Regex::new(pattern).ok().map(|re| re.is_match(text))
}

/// Compiles `pattern` and returns capture group 1 of its first match in
/// `text` (`captures(text)?.get(1)`).
#[verifier::external_body]
pub fn regex_first_group(pattern: &str, text: &str) -> (r: Option<String>)
    ensures
        opt_chars(r) == (if regex_valid(pattern@) {
            regex_group1(pattern@, text@)
        } else {
            None
        }),
{
    let re = regex::Regex::new(pattern).ok()?;
    re.captures(text)?.get(1).map(|m| m.as_str().to_string())
}

} // verus!
