use crate::errors::{minimal_error, PattiCsvError, PattiCsvErrorView, SanitizeError, SanitizeErrorView};
use crate::regex_support::{
    compile_regex, regex_error_message, regex_error_text, regex_first_group, regex_first_groups,
    regex_pattern, regex_source,
};
use crate::text::{
    debug_quote, debug_quoted, lowercase_of, replace, replaced, to_lowercase, to_uppercase, trim,
    trim_end, trim_start, trimmed, trimmed_end, trimmed_start, uppercase_of,
};
use regex::Regex;
use vstd::prelude::*;

verus! {

/// Whether `r` is the outcome `expected`, texts compared by their
/// characters.
pub open spec fn is_outcome(
    r: Result<String, PattiCsvError>,
    expected: Result<Seq<char>, SanitizeErrorView>,
) -> bool {
    match expected {
        Ok(t) => r is Ok && r->Ok_0@ == t,
        Err(e) => r is Err && r->Err_0@ == PattiCsvErrorView::Sanitize(e),
    }
}

/// One step of token sanitizing: a transform of a token's text that either
/// gives the new text or fails with a description of what went wrong.
pub trait TransformSanitizeToken {
    /// What the step makes of the token `input`.
    spec fn transitized(&self, input: Seq<char>) -> Result<Seq<char>, SanitizeErrorView>;

    /// The step's description, as it appears in error messages.
    spec fn self_info(&self) -> Seq<char>;

    fn transitize(&self, input_token: &str) -> (r: Result<String, PattiCsvError>)
        ensures
            is_outcome(r, self.transitized(input_token@)),
    ;

    fn get_self_info(&self) -> (s: String)
        ensures
            s@ == self.self_info(),
    ;
}

/// Replaces every occurrence of `from` by `to`.
#[derive(Debug)]
pub struct ReplaceWith {
    pub from: String,
    pub to: String,
}

impl ReplaceWith {
    pub fn new(from: &str, to: &str) -> (t: Self)
        ensures
            t.from@ == from@,
            t.to@ == to@,
    {
        Self { from: String::from_str(from), to: String::from_str(to) }
    }
}

impl TransformSanitizeToken for ReplaceWith {
    open spec fn transitized(&self, input: Seq<char>) -> Result<Seq<char>, SanitizeErrorView> {
        Ok(replaced(input, self.from@, self.to@))
    }

    open spec fn self_info(&self) -> Seq<char> {
        "ReplaceWith { from: "@ + debug_quoted(self.from@) + ", to: "@ + debug_quoted(self.to@)
            + " }"@
    }

    fn transitize(&self, input_token: &str) -> (r: Result<String, PattiCsvError>) {
        Ok(replace(input_token, self.from.as_str(), self.to.as_str()))
    }

    fn get_self_info(&self) -> (s: String) {
        let mut s = String::from_str("ReplaceWith { from: ");
        let from = debug_quote(self.from.as_str());
        s.append(from.as_str());
        s.append(", to: ");
        let to = debug_quote(self.to.as_str());
        s.append(to.as_str());
        s.append(" }");
        s
    }
}

/// Removes every occurrence of `eradicate`.
#[derive(Debug)]
pub struct Eradicate {
    pub eradicate: String,
}

impl Eradicate {
    pub fn new(eradicate: &str) -> (t: Self)
        ensures
            t.eradicate@ == eradicate@,
    {
        Self { eradicate: String::from_str(eradicate) }
    }
}

impl TransformSanitizeToken for Eradicate {
    open spec fn transitized(&self, input: Seq<char>) -> Result<Seq<char>, SanitizeErrorView> {
        Ok(replaced(input, self.eradicate@, Seq::empty()))
    }

    open spec fn self_info(&self) -> Seq<char> {
        "Eradicate { eradicate: "@ + debug_quoted(self.eradicate@) + " }"@
    }

    fn transitize(&self, input_token: &str) -> (r: Result<String, PattiCsvError>) {
        let nothing = String::new();
        Ok(replace(input_token, self.eradicate.as_str(), nothing.as_str()))
    }

    fn get_self_info(&self) -> (s: String) {
        let mut s = String::from_str("Eradicate { eradicate: ");
        let quoted = debug_quote(self.eradicate.as_str());
        s.append(quoted.as_str());
        s.append(" }");
        s
    }
}

/// Folds the token to lower case.
#[derive(Debug)]
pub struct ToLowercase;

impl ToLowercase {
    pub fn new() -> Self {
        Self {  }
    }
}

impl TransformSanitizeToken for ToLowercase {
    open spec fn transitized(&self, input: Seq<char>) -> Result<Seq<char>, SanitizeErrorView> {
        Ok(lowercase_of(input))
    }

    open spec fn self_info(&self) -> Seq<char> {
        "ToLowercase"@
    }

    fn transitize(&self, input_token: &str) -> (r: Result<String, PattiCsvError>) {
        Ok(to_lowercase(input_token))
    }

    fn get_self_info(&self) -> (s: String) {
        String::from_str("ToLowercase")
    }
}

/// Folds the token to upper case.
#[derive(Debug)]
pub struct ToUppercase;

impl ToUppercase {
    pub fn new() -> Self {
        Self {  }
    }
}

impl TransformSanitizeToken for ToUppercase {
    open spec fn transitized(&self, input: Seq<char>) -> Result<Seq<char>, SanitizeErrorView> {
        Ok(uppercase_of(input))
    }

    open spec fn self_info(&self) -> Seq<char> {
        "ToUppercase"@
    }

    fn transitize(&self, input_token: &str) -> (r: Result<String, PattiCsvError>) {
        Ok(to_uppercase(input_token))
    }

    fn get_self_info(&self) -> (s: String) {
        String::from_str("ToUppercase")
    }
}

/// Removes the white space at the start of the token.
#[derive(Debug)]
pub struct TrimLeading;

impl TrimLeading {
    pub fn new() -> Self {
        Self {  }
    }
}

impl TransformSanitizeToken for TrimLeading {
    open spec fn transitized(&self, input: Seq<char>) -> Result<Seq<char>, SanitizeErrorView> {
        Ok(trimmed_start(input))
    }

    open spec fn self_info(&self) -> Seq<char> {
        "TrimLeading"@
    }

    fn transitize(&self, input_token: &str) -> (r: Result<String, PattiCsvError>) {
        Ok(trim_start(input_token))
    }

    fn get_self_info(&self) -> (s: String) {
        String::from_str("TrimLeading")
    }
}

/// Removes the white space at the end of the token.
#[derive(Debug)]
pub struct TrimTrailing;

impl TrimTrailing {
    pub fn new() -> Self {
        Self {  }
    }
}

impl TransformSanitizeToken for TrimTrailing {
    open spec fn transitized(&self, input: Seq<char>) -> Result<Seq<char>, SanitizeErrorView> {
        Ok(trimmed_end(input))
    }

    open spec fn self_info(&self) -> Seq<char> {
        "TrimTrailing"@
    }

    fn transitize(&self, input_token: &str) -> (r: Result<String, PattiCsvError>) {
        Ok(trim_end(input_token))
    }

    fn get_self_info(&self) -> (s: String) {
        String::from_str("TrimTrailing")
    }
}

/// Removes the white space at both ends of the token.
#[derive(Debug)]
pub struct TrimAll;

impl TrimAll {
    pub fn new() -> Self {
        Self {  }
    }
}

impl TransformSanitizeToken for TrimAll {
    open spec fn transitized(&self, input: Seq<char>) -> Result<Seq<char>, SanitizeErrorView> {
        Ok(trimmed(input))
    }

    open spec fn self_info(&self) -> Seq<char> {
        "TrimAll"@
    }

    fn transitize(&self, input_token: &str) -> (r: Result<String, PattiCsvError>) {
        Ok(trim(input_token))
    }

    fn get_self_info(&self) -> (s: String) {
        String::from_str("TrimAll")
    }
}

/// Keeps what the first capture group of a regular expression holds in the
/// leftmost match, and fails where there is no match or no such group.
#[derive(Debug)]
pub struct RegexTake {
    pub regex: Regex,
}

/// What taking the first capture group makes of `input`, `found` being what
/// the search gave: nothing, a match without the group, or the group's text.
pub open spec fn taken(input: Seq<char>, found: Option<Option<Seq<char>>>) -> Result<
    Seq<char>,
    SanitizeErrorView,
> {
    match found {
        None => Err(minimal_error("No captures, but we need exactly one."@, input)),
        Some(None) => Err(minimal_error("No capture group#1."@, input)),
        Some(Some(text)) => Ok(text),
    }
}

/// What a search with `re` finds in `input`.
pub open spec fn found_by(re: Regex, input: Seq<char>) -> Option<Option<Seq<char>>> {
    if regex_first_groups(re).dom().contains(input) {
        Some(regex_first_groups(re)[input])
    } else {
        None
    }
}

/// The text of a found group.
pub open spec fn found_text(found: Option<Option<String>>) -> Option<Option<Seq<char>>> {
    match found {
        None => None,
        Some(None) => Some(None),
        Some(Some(s)) => Some(Some(s@)),
    }
}

impl RegexTake {
    /// The step for the outcome `compiled` of compiling a pattern.
    pub fn from_compiled(compiled: Result<Regex, regex::Error>) -> (r: Result<Self, PattiCsvError>)
        ensures
            match compiled {
                Ok(re) => r is Ok && r->Ok_0.regex == re,
                Err(e) => r is Err && r->Err_0@ == PattiCsvErrorView::Sanitize(
                    minimal_error(regex_error_text(e), "ERROR_ON_REGEX_COMPILE"@),
                ),
            },
    {
        match compiled {
            Ok(re) => Ok(Self { regex: re }),
            Err(e) => Err(
                PattiCsvError::Sanitize(
                    SanitizeError::minim(
                        regex_error_message(&e),
                        String::from_str("ERROR_ON_REGEX_COMPILE"),
                    ),
                ),
            ),
        }
    }

    /// The step for the pattern `regex_pattern`, or a sanitize error that
    /// carries the compiler's message where the pattern does not compile.
    pub fn new(regex_pattern: &str) -> (r: Result<Self, PattiCsvError>)
        ensures
            match r {
                Ok(t) => crate::regex_support::regex_pattern(t.regex) == regex_pattern@,
                Err(e) => exists|error_text: Seq<char>|
                    e@ == PattiCsvErrorView::Sanitize(
                        #[trigger] minimal_error(error_text, "ERROR_ON_REGEX_COMPILE"@),
                    ),
            },
    {
        Self::from_compiled(compile_regex(regex_pattern))
    }

    /// What the step returns for `input_token` when the search gave
    /// `found`.
    pub fn take_found(input_token: &str, found: Option<Option<String>>) -> (r: Result<
        String,
        PattiCsvError,
    >)
        ensures
            is_outcome(r, taken(input_token@, found_text(found))),
    {
        match found {
            None => Err(
                PattiCsvError::Sanitize(
                    SanitizeError::minim(
                        String::from_str("No captures, but we need exactly one."),
                        String::from_str(input_token),
                    ),
                ),
            ),
            Some(None) => Err(
                PattiCsvError::Sanitize(
                    SanitizeError::minim(
                        String::from_str("No capture group#1."),
                        String::from_str(input_token),
                    ),
                ),
            ),
            Some(Some(text)) => Ok(text),
        }
    }
}

impl TransformSanitizeToken for RegexTake {
    open spec fn transitized(&self, input: Seq<char>) -> Result<Seq<char>, SanitizeErrorView> {
        taken(input, found_by(self.regex, input))
    }

    open spec fn self_info(&self) -> Seq<char> {
        "RegexTake { regex: Regex("@ + debug_quoted(regex_pattern(self.regex)) + ") }"@
    }

    fn transitize(&self, input_token: &str) -> (r: Result<String, PattiCsvError>) {
        let found = regex_first_group(&self.regex, input_token);
        Self::take_found(input_token, found)
    }

    fn get_self_info(&self) -> (s: String) {
        let mut s = String::from_str("RegexTake { regex: Regex(");
        let source = regex_source(&self.regex);
        let quoted = debug_quote(source.as_str());
        s.append(quoted.as_str());
        s.append(") }");
        s
    }
}

/// One of the token transforms that this library knows.
#[derive(Debug)]
pub enum Transitizer {
    ReplaceWith(ReplaceWith),
    Eradicate(Eradicate),
    ToLowercase(ToLowercase),
    ToUppercase(ToUppercase),
    TrimLeading(TrimLeading),
    TrimTrailing(TrimTrailing),
    TrimAll(TrimAll),
    RegexTake(RegexTake),
}

impl TransformSanitizeToken for Transitizer {
    open spec fn transitized(&self, input: Seq<char>) -> Result<Seq<char>, SanitizeErrorView> {
        match self {
            Transitizer::ReplaceWith(t) => t.transitized(input),
            Transitizer::Eradicate(t) => t.transitized(input),
            Transitizer::ToLowercase(t) => t.transitized(input),
            Transitizer::ToUppercase(t) => t.transitized(input),
            Transitizer::TrimLeading(t) => t.transitized(input),
            Transitizer::TrimTrailing(t) => t.transitized(input),
            Transitizer::TrimAll(t) => t.transitized(input),
            Transitizer::RegexTake(t) => t.transitized(input),
        }
    }

    open spec fn self_info(&self) -> Seq<char> {
        match self {
            Transitizer::ReplaceWith(t) => t.self_info(),
            Transitizer::Eradicate(t) => t.self_info(),
            Transitizer::ToLowercase(t) => t.self_info(),
            Transitizer::ToUppercase(t) => t.self_info(),
            Transitizer::TrimLeading(t) => t.self_info(),
            Transitizer::TrimTrailing(t) => t.self_info(),
            Transitizer::TrimAll(t) => t.self_info(),
            Transitizer::RegexTake(t) => t.self_info(),
        }
    }

    fn transitize(&self, input_token: &str) -> (r: Result<String, PattiCsvError>) {
        match self {
            Transitizer::ReplaceWith(t) => t.transitize(input_token),
            Transitizer::Eradicate(t) => t.transitize(input_token),
            Transitizer::ToLowercase(t) => t.transitize(input_token),
            Transitizer::ToUppercase(t) => t.transitize(input_token),
            Transitizer::TrimLeading(t) => t.transitize(input_token),
            Transitizer::TrimTrailing(t) => t.transitize(input_token),
            Transitizer::TrimAll(t) => t.transitize(input_token),
            Transitizer::RegexTake(t) => t.transitize(input_token),
        }
    }

    fn get_self_info(&self) -> (s: String) {
        match self {
            Transitizer::ReplaceWith(t) => t.get_self_info(),
            Transitizer::Eradicate(t) => t.get_self_info(),
            Transitizer::ToLowercase(t) => t.get_self_info(),
            Transitizer::ToUppercase(t) => t.get_self_info(),
            Transitizer::TrimLeading(t) => t.get_self_info(),
            Transitizer::TrimTrailing(t) => t.get_self_info(),
            Transitizer::TrimAll(t) => t.get_self_info(),
            Transitizer::RegexTake(t) => t.get_self_info(),
        }
    }
}

/// What a [`Transitizer`] is set to do, with its texts as character
/// sequences and a regular expression as its pattern.
pub enum TransitizerView {
    ReplaceWith { from: Seq<char>, to: Seq<char> },
    Eradicate { eradicate: Seq<char> },
    ToLowercase,
    ToUppercase,
    TrimLeading,
    TrimTrailing,
    TrimAll,
    RegexTake { pattern: Seq<char> },
}

impl View for Transitizer {
    type V = TransitizerView;

    open spec fn view(&self) -> TransitizerView {
        match self {
            Transitizer::ReplaceWith(t) => TransitizerView::ReplaceWith { from: t.from@, to: t.to@ },
            Transitizer::Eradicate(t) => TransitizerView::Eradicate { eradicate: t.eradicate@ },
            Transitizer::ToLowercase(_) => TransitizerView::ToLowercase,
            Transitizer::ToUppercase(_) => TransitizerView::ToUppercase,
            Transitizer::TrimLeading(_) => TransitizerView::TrimLeading,
            Transitizer::TrimTrailing(_) => TransitizerView::TrimTrailing,
            Transitizer::TrimAll(_) => TransitizerView::TrimAll,
            Transitizer::RegexTake(t) => TransitizerView::RegexTake {
                pattern: regex_pattern(t.regex),
            },
        }
    }
}

/// What the transforms of a chain are set to do.
pub open spec fn chain_views(chain: Seq<Transitizer>) -> Seq<TransitizerView> {
    chain.map_values(|t: Transitizer| t@)
}

} // verus!
