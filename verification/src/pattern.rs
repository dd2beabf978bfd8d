//! Regular expressions, as the `regex` crate provides them.
//!
//! Nothing in this file is proved. Each function here makes one call into
//! the crate, and its contract says of that call what the crate's
//! documentation says. What a search finds is not spelled out: it is given
//! a name, as a function of the pattern and of the text searched, so that
//! callers can say which search their result comes from.

use crate::text::string_views;
use vstd::prelude::*;

verus! {

/// A compiled regular expression of the `regex` crate.
#[verifier::external_type_specification]
#[verifier::external_body]
pub struct ExRegex(regex::Regex);

/// The error of the `regex` crate for a pattern that does not compile.
#[verifier::external_type_specification]
#[verifier::external_body]
pub struct ExRegexError(regex::Error);

/// Whether `regex::Regex::new` accepts `pattern`.
pub uninterp spec fn compiles(pattern: Seq<char>) -> bool;

/// The text of the leftmost match of `pattern` in `haystack`, as
/// `regex::Regex::find` reports it for the expression that `Regex::new`
/// makes of `pattern`; `None` where nothing matches.
pub uninterp spec fn first_match(pattern: Seq<char>, haystack: Seq<char>) -> Option<Seq<char>>;

/// The pieces of `haystack` between the matches of `pattern`, in order, as
/// `regex::Regex::split` yields them for the expression that `Regex::new`
/// makes of `pattern`.
pub uninterp spec fn split_pieces(pattern: Seq<char>, haystack: Seq<char>) -> Seq<Seq<char>>;

/// A regular expression compiled by `regex::Regex::new`, with the pattern
/// it was compiled from. `compile` is the only way to make one.
pub struct Pattern {
    source: Ghost<Seq<char>>,
    regex: regex::Regex,
}

impl View for Pattern {
    type V = Seq<char>;

    /// The pattern that the expression was compiled from.
    closed spec fn view(&self) -> Seq<char> {
        self.source@
    }
}

/// Calls `regex::Regex::new`. It succeeds exactly on the patterns that the
/// crate accepts, and what it returns was compiled from `pattern`.
#[verifier::external_body]
pub(crate) fn compile(pattern: &str) -> (r: Result<Pattern, regex::Error>)
    ensures
        r.is_ok() == compiles(pattern@),
        r matches Ok(p) ==> p@ == pattern@,
{
    match regex::Regex::new(pattern) {
        Ok(regex) => Ok(Pattern { source: Ghost(pattern@), regex }),
        Err(e) => Err(e),
    }
}

/// Calls `regex::Regex::find` and copies out the text that matched.
#[verifier::external_body]
pub(crate) fn find_text(pattern: &Pattern, haystack: &str) -> (r: Option<String>)
    ensures
        match r {
            Some(m) => first_match(pattern@, haystack@) == Some(m@),
            None => first_match(pattern@, haystack@).is_none(),
        },
{
    pattern.regex.find(haystack).map(|m| m.as_str().to_string())
}

/// Calls `regex::Regex::split` and copies the pieces out, in order.
#[verifier::external_body]
pub(crate) fn split_text(pattern: &Pattern, haystack: &str) -> (r: Vec<String>)
    ensures
        string_views(r@) == split_pieces(pattern@, haystack@),
{
    pattern.regex.split(haystack).map(|piece| piece.to_string()).collect()
}

} // verus!
