//! Trusted boundary to the regex crate.
//!
//! Routed-websocket patterns are matched against urls with real regular
//! expressions. The one function here makes the only regex calls in the
//! crate; its results are stated through two names: whether a pattern
//! compiles, and whether a compiled pattern accepts a text.

use vstd::prelude::*;

verus! {

/// Whether the regex crate compiles this pattern under this flag.
pub uninterp spec fn regex_compiles(pattern: Seq<char>, case_insensitive: bool) -> bool;

/// Whether the compiled pattern accepts the text: a function of the pattern,
/// the flag and the text alone.
pub uninterp spec fn regex_accepts(
    pattern: Seq<char>,
    case_insensitive: bool,
    text: Seq<char>,
) -> bool;

/// Relies on regex's `RegexBuilder::build` and `Regex::is_match`: building
/// succeeds exactly when the pattern is a valid expression, and matching a
/// compiled pattern against a text depends on nothing else.
#[verifier::external_body]
pub fn regex_matches(pattern: &str, case_insensitive: bool, text: &str) -> (r: Option<bool>)
    ensures
        r is Some <==> regex_compiles(pattern@, case_insensitive),
        r matches Some(b) ==> b == regex_accepts(pattern@, case_insensitive, text@),
{
    let mut builder = regex::RegexBuilder::new(pattern);
    builder.case_insensitive(case_insensitive);
    match builder.build() {
        Ok(re) => Some(re.is_match(text)),
        Err(_) => None,
    }
}

} // verus!
