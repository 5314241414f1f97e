//! Regular expressions, matched by the `regex` crate.

use vstd::prelude::*;

verus! {

#[verifier::external_type_specification]
#[verifier::external_body]
pub struct ExRegex(regex::Regex);

#[verifier::external_type_specification]
#[verifier::external_body]
pub struct ExRegexError(regex::Error);

/// Whether the `regex` crate accepts `pattern`.
pub uninterp spec fn regex_compiles(pattern: Seq<char>) -> bool;

/// The text of capture group 1 in the leftmost match of `pattern` in
/// `haystack`, if there is a match and the group took part in it.
pub uninterp spec fn regex_first_group(pattern: Seq<char>, haystack: Seq<char>) -> Option<Seq<char>>;

/// The number of non-overlapping matches of `pattern` in `haystack`.
pub uninterp spec fn regex_match_count(pattern: Seq<char>, haystack: Seq<char>) -> usize;

/// `haystack` with its first `limit` non-overlapping matches of `pattern`
/// (all of them when `limit` is zero) replaced by `replacement`, in which
/// `$name` and `${name}` stand for capture groups.
pub uninterp spec fn regex_replacen(
    pattern: Seq<char>,
    haystack: Seq<char>,
    limit: usize,
    replacement: Seq<char>,
) -> Seq<char>;

/// A compiled regular expression together with its source text.
pub struct Pattern {
    regex: regex::Regex,
    source: Ghost<Seq<char>>,
}

impl Pattern {
    /// The pattern text this expression was compiled from.
    pub closed spec fn source(&self) -> Seq<char> {
        self.source@
    }
}

/// Compiles `pattern`.
///
/// Trusted: calls `regex::Regex::new`, which fails exactly on the patterns that
/// the crate rejects.
#[verifier::external_body]
fn compile(pattern: &str) -> (r: Result<regex::Regex, regex::Error>)
    ensures
        r is Ok <==> regex_compiles(pattern@),
{
    regex::Regex::new(pattern)
}

/// Compiles `pattern`; `None` when the `regex` crate rejects it.
pub fn compile_pattern(pattern: &str) -> (r: Option<Pattern>)
    ensures
        r is Some <==> regex_compiles(pattern@),
        r matches Some(p) ==> p.source() == pattern@,
{
    match compile(pattern) {
        Ok(regex) => Some(Pattern { regex, source: Ghost(pattern@) }),
        Err(_) => None,
    }
}

/// The text of capture group 1 of the leftmost match.
///
/// Trusted: calls `regex::Regex::captures`, then reads group 1 of the match
/// with `Captures::get` and `Match::as_str`.
#[verifier::external_body]
pub(crate) fn first_group(pattern: &Pattern, haystack: &str) -> (r: Option<String>)
    ensures
        match r {
            Some(s) => regex_first_group(pattern.source(), haystack@) == Some(s@),
            None => regex_first_group(pattern.source(), haystack@) is None,
        },
{
    pattern.regex.captures(haystack).and_then(|c| c.get(1)).map(|m| m.as_str().to_owned())
}

/// Counts the matches of `pattern` in `haystack`.
///
/// Trusted: calls `regex::Regex::find_iter` and counts what the iterator yields.
#[verifier::external_body]
pub(crate) fn match_count(pattern: &Pattern, haystack: &str) -> (r: usize)
    ensures
        r == regex_match_count(pattern.source(), haystack@),
{
    pattern.regex.find_iter(haystack).count()
}

/// Replaces the first `limit` matches of `pattern` in `haystack`.
///
/// Trusted: calls `regex::Regex::replacen` with `replacement` as the replacer
/// and takes the result as an owned string.
#[verifier::external_body]
pub(crate) fn replace_matches(
    pattern: &Pattern,
    haystack: &str,
    limit: usize,
    replacement: &str,
) -> (r: String)
    ensures
        r@ == regex_replacen(pattern.source(), haystack@, limit, replacement@),
{
    pattern.regex.replacen(haystack, limit, replacement).into_owned()
}

} // verus!
