use regex::Regex;
use vstd::prelude::*;

verus! {

/// `regex::Regex`: a compiled regular expression. Nothing of its
/// representation is known here.
#[verifier::external_type_specification]
#[verifier::external_body]
pub struct ExRegex(regex::Regex);

/// `regex::Error`: why a pattern did not compile.
#[verifier::external_type_specification]
#[verifier::external_body]
pub struct ExRegexError(regex::Error);

/// The pattern text that a compiled regular expression was made from.
pub uninterp spec fn regex_pattern(re: Regex) -> Seq<char>;

/// The texts in which a compiled regular expression finds a match.
pub uninterp spec fn regex_language(re: Regex) -> Set<Seq<char>>;

/// For each text in which a compiled regular expression finds a match: what
/// its first capture group holds in the leftmost match, `None` where the
/// expression has no such group or the group took no part in the match.
pub uninterp spec fn regex_first_groups(re: Regex) -> Map<Seq<char>, Option<Seq<char>>>;

/// The message that a compile error displays.
pub uninterp spec fn regex_error_text(e: regex::Error) -> Seq<char>;

/// `Regex::new`. Whether a pattern compiles is left open; a compiled
/// expression remembers the pattern it was given.
#[verifier::external_body]
pub(crate) fn compile_regex(pattern: &str) -> (r: Result<Regex, regex::Error>)
    ensures
        r matches Ok(re) ==> regex_pattern(re) == pattern@,
{
    Regex::new(pattern)
}

/// `Regex::as_str`: the pattern the expression was made from.
#[verifier::external_body]
pub(crate) fn regex_source(re: &Regex) -> (s: String)
    ensures
        s@ == regex_pattern(*re),
{
    String::from(re.as_str())
}

/// `Regex::is_match`: whether there is a match anywhere in `text`.
#[verifier::external_body]
pub(crate) fn regex_is_match(re: &Regex, text: &str) -> (b: bool)
    ensures
        b == regex_language(*re).contains(text@),
{
    re.is_match(text)
}

/// `Regex::captures`, reduced to the first capture group: `None` where
/// nothing matches, else what `Captures::get(1)` holds, as text.
#[verifier::external_body]
pub(crate) fn regex_first_group(re: &Regex, text: &str) -> (r: Option<Option<String>>)
    ensures
        r is Some <==> regex_first_groups(*re).dom().contains(text@),
        r matches Some(group) ==> regex_first_groups(*re)[text@] == (match group {
            Some(s) => Some(s@),
            None => None,
        }),
{
    match re.captures(text) {
        None => None,
        Some(caps) => match caps.get(1) {
            None => Some(None),
            Some(m) => Some(Some(String::from(m.as_str()))),
        },
    }
}

/// The `Display` form of a compile error.
#[verifier::external_body]
pub(crate) fn regex_error_message(e: &regex::Error) -> (msg: String)
    ensures
        msg@ == regex_error_text(*e),
{
    format!("{}", e)
}

} // verus!
