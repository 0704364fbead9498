//! The regular-expression engine behind the rules: the `regex` crate.
//!
//! Nothing in this module is proved. Its items give names to what the
//! engine returns, so that the rest of the library can say exactly what it
//! does with it, whatever it is.

use regex::Regex;
use vstd::prelude::*;

verus! {

/// A compiled regular expression of the `regex` crate. Nothing inside it is
/// visible to the verifier.
#[verifier::external_type_specification]
#[verifier::external_body]
pub struct ExRegex(regex::Regex);

/// The pattern string that a compiled regular expression was built from,
/// which `Regex::as_str` hands back.
pub uninterp spec fn regex_source(re: Regex) -> Seq<char>;

/// Whether `Regex::new` accepts the pattern.
pub uninterp spec fn regex_compiles(pattern: Seq<char>) -> bool;

/// What a search for the pattern in the haystack finds: nothing, or the
/// byte offset at which the match starts together with the matched text.
pub uninterp spec fn regex_find(pattern: Seq<char>, haystack: Seq<char>) -> Option<
    (int, Seq<char>),
>;

/// `Regex::new`: compiles the pattern. It returns a regular expression
/// exactly for the patterns named by `regex_compiles`, and the regular
/// expression remembers the pattern it was built from.
#[verifier::external_body]
pub(crate) fn compile(pattern: &str) -> (compiled: Option<Regex>)
    ensures
        compiled is Some <==> regex_compiles(pattern@),
        compiled matches Some(re) ==> regex_source(re) == pattern@,
{
    Regex::new(pattern).ok()
}

/// `Regex::captures`, read at group 0 with `Captures::get`: the overall
/// match of the regular expression in the haystack, as the byte offset of
/// its start (`Match::start`) and its text (`Match::as_str`). The result is
/// the one named by `regex_find` for the pattern of `re`, a regular
/// expression that `compile` built: this library builds none in another
/// way.
#[verifier::external_body]
pub(crate) fn search(re: &Regex, haystack: &str) -> (found: Option<(usize, String)>)
    ensures
        match found {
            Some(m) => regex_find(regex_source(*re), haystack@) == Some((m.0 as int, m.1@)),
            None => regex_find(regex_source(*re), haystack@) is None,
        },
{
    match re.captures(haystack) {
        Some(caps) => match caps.get(0) {
            Some(m) => Some((m.start(), m.as_str().to_string())),
            None => None,
        },
        None => None,
    }
}

} // verus!
