use crate::errors::{PattiCsvError, PattiCsvErrorView};
use crate::regex_support::{
    compile_regex, regex_error_message, regex_error_text, regex_is_match, regex_language,
    regex_pattern, regex_source,
};
use crate::text::{chars_of, debug_quote, debug_quoted, decimal, push_decimal, starts_with};
use regex::Regex;
use vstd::prelude::*;

verus! {

/// A rule that decides from a line's number and raw text, line terminator
/// included, whether the line is dropped before it is tokenized.
pub trait SkipTakeLines {
    /// Whether the rule drops line number `line_num` with text
    /// `line_content`.
    spec fn skips(&self, line_num: usize, line_content: Seq<char>) -> bool;

    /// The rule's description.
    spec fn self_info(&self) -> Seq<char>;

    fn skip(&self, line_num: usize, line_content: &str) -> (b: bool)
        ensures
            b == self.skips(line_num, line_content@),
    ;

    fn get_self_info(&self) -> (s: String)
        ensures
            s@ == self.self_info(),
    ;
}

/// Drops the first `skip_num_lines` lines.
#[derive(Debug)]
pub struct SkipLinesFromStart {
    pub skip_num_lines: usize,
}

impl SkipLinesFromStart {
    pub fn new(skip_num_lines: usize) -> (s: Self)
        ensures
            s.skip_num_lines == skip_num_lines,
    {
        Self { skip_num_lines }
    }
}

impl SkipTakeLines for SkipLinesFromStart {
    open spec fn skips(&self, line_num: usize, line_content: Seq<char>) -> bool {
        line_num <= self.skip_num_lines
    }

    open spec fn self_info(&self) -> Seq<char> {
        "SkipLinesFromStart { skip_num_lines: "@ + decimal(self.skip_num_lines as nat) + " }"@
    }

    fn skip(&self, line_num: usize, _line_content: &str) -> (b: bool) {
        line_num <= self.skip_num_lines
    }

    fn get_self_info(&self) -> (s: String) {
        let mut s = String::from_str("SkipLinesFromStart { skip_num_lines: ");
        push_decimal(&mut s, self.skip_num_lines);
        s.append(" }");
        s
    }
}

/// Drops the last `skip_num_lines` of `lines_total` lines. The total has to
/// be known before the first line is read.
#[derive(Debug)]
pub struct SkipLinesFromEnd {
    pub skip_num_lines: usize,
    pub lines_total: usize,
}

impl SkipTakeLines for SkipLinesFromEnd {
    open spec fn skips(&self, line_num: usize, line_content: Seq<char>) -> bool {
        line_num + self.skip_num_lines > self.lines_total
    }

    open spec fn self_info(&self) -> Seq<char> {
        "SkipLinesFromEnd { skip_num_lines: "@ + decimal(self.skip_num_lines as nat)
            + ", lines_total: "@ + decimal(self.lines_total as nat) + " }"@
    }

    fn skip(&self, line_num: usize, _line_content: &str) -> (b: bool) {
        self.skip_num_lines > self.lines_total || line_num > self.lines_total
            - self.skip_num_lines
    }

    fn get_self_info(&self) -> (s: String) {
        let mut s = String::from_str("SkipLinesFromEnd { skip_num_lines: ");
        push_decimal(&mut s, self.skip_num_lines);
        s.append(", lines_total: ");
        push_decimal(&mut s, self.lines_total);
        s.append(" }");
        s
    }
}

/// Drops the lines that begin with `starts_with`.
#[derive(Debug)]
pub struct SkipLinesStartingWith {
    pub starts_with: String,
}

impl SkipLinesStartingWith {
    pub fn new(starts_with: &str) -> (s: Self)
        ensures
            s.starts_with@ == starts_with@,
    {
        Self { starts_with: String::from_str(starts_with) }
    }
}

impl SkipTakeLines for SkipLinesStartingWith {
    open spec fn skips(&self, line_num: usize, line_content: Seq<char>) -> bool {
        self.starts_with@.is_prefix_of(line_content)
    }

    open spec fn self_info(&self) -> Seq<char> {
        "SkipLinesStartingWith { starts_with: "@ + debug_quoted(self.starts_with@) + " }"@
    }

    fn skip(&self, _line_num: usize, line_content: &str) -> (b: bool) {
        starts_with(line_content, self.starts_with.as_str())
    }

    fn get_self_info(&self) -> (s: String) {
        let mut s = String::from_str("SkipLinesStartingWith { starts_with: ");
        let quoted = debug_quote(self.starts_with.as_str());
        s.append(quoted.as_str());
        s.append(" }");
        s
    }
}

/// Drops the lines that do not begin with `starts_with`.
#[derive(Debug)]
pub struct TakeLinesStartingWith {
    pub starts_with: String,
}

impl SkipTakeLines for TakeLinesStartingWith {
    open spec fn skips(&self, line_num: usize, line_content: Seq<char>) -> bool {
        !self.starts_with@.is_prefix_of(line_content)
    }

    open spec fn self_info(&self) -> Seq<char> {
        "TakeLinesStartingWith { starts_with: "@ + debug_quoted(self.starts_with@) + " }"@
    }

    fn skip(&self, _line_num: usize, line_content: &str) -> (b: bool) {
        !starts_with(line_content, self.starts_with.as_str())
    }

    fn get_self_info(&self) -> (s: String) {
        let mut s = String::from_str("TakeLinesStartingWith { starts_with: ");
        let quoted = debug_quote(self.starts_with.as_str());
        s.append(quoted.as_str());
        s.append(" }");
        s
    }
}

/// Drops the lines in which a regular expression finds a match.
#[derive(Debug)]
pub struct SkipLinesByRegex {
    pub regex: Regex,
}

/// The message of the configuration error for a pattern that does not
/// compile.
pub open spec fn skip_regex_error_msg(pattern: Seq<char>, error_text: Seq<char>) -> Seq<char> {
    "[ERROR_ON_REGEX_COMPILE] Cannot create SkipLinesByRegex by given regex str="@ + pattern
        + ". Error: "@ + error_text
}

impl SkipLinesByRegex {
    /// The rule for the outcome `compiled` of compiling `regex_pattern`.
    pub fn from_compiled(regex_pattern: &str, compiled: Result<Regex, regex::Error>) -> (r: Result<
        Self,
        PattiCsvError,
    >)
        ensures
            match compiled {
                Ok(re) => r is Ok && r->Ok_0.regex == re,
                Err(e) => r is Err && r->Err_0@ == (PattiCsvErrorView::ConfigError {
                    msg: skip_regex_error_msg(regex_pattern@, regex_error_text(e)),
                }),
            },
    {
        match compiled {
            Ok(re) => Ok(Self { regex: re }),
            Err(e) => {
                let mut msg = String::from_str(
                    "[ERROR_ON_REGEX_COMPILE] Cannot create SkipLinesByRegex by given regex str=",
                );
                msg.append(regex_pattern);
                msg.append(". Error: ");
                let text = regex_error_message(&e);
                msg.append(text.as_str());
                Err(PattiCsvError::ConfigError { msg })
            },
        }
    }

    /// The rule for the pattern `regex_pattern`, or a configuration error
    /// where the pattern does not compile.
    pub fn new(regex_pattern: &str) -> (r: Result<Self, PattiCsvError>)
        ensures
            match r {
                Ok(rule) => crate::regex_support::regex_pattern(rule.regex) == regex_pattern@,
                Err(e) => exists|error_text: Seq<char>|
                    e@ == (PattiCsvErrorView::ConfigError {
                        msg: #[trigger] skip_regex_error_msg(regex_pattern@, error_text),
                    }),
            },
    {
        Self::from_compiled(regex_pattern, compile_regex(regex_pattern))
    }
}

impl SkipTakeLines for SkipLinesByRegex {
    open spec fn skips(&self, line_num: usize, line_content: Seq<char>) -> bool {
        regex_language(self.regex).contains(line_content)
    }

    open spec fn self_info(&self) -> Seq<char> {
        "SkipLinesByRegex { regex: Regex("@ + debug_quoted(regex_pattern(self.regex)) + ") }"@
    }

    fn skip(&self, _line_num: usize, line_content: &str) -> (b: bool) {
        regex_is_match(&self.regex, line_content)
    }

    fn get_self_info(&self) -> (s: String) {
        let mut s = String::from_str("SkipLinesByRegex { regex: Regex(");
        let source = regex_source(&self.regex);
        let quoted = debug_quote(source.as_str());
        s.append(quoted.as_str());
        s.append(") }");
        s
    }
}

/// Whether `line` holds nothing but a line terminator.
pub open spec fn is_blank_line(line: Seq<char>) -> bool {
    line == seq!['\n'] || line == seq!['\r', '\n']
}

/// Drops the lines that hold nothing but their terminator.
#[derive(Debug)]
pub struct SkipEmptyLines {}

impl SkipEmptyLines {
    pub fn new() -> Self {
        Self {  }
    }
}

impl SkipTakeLines for SkipEmptyLines {
    open spec fn skips(&self, line_num: usize, line_content: Seq<char>) -> bool {
        is_blank_line(line_content)
    }

    open spec fn self_info(&self) -> Seq<char> {
        "SkipEmptyLines"@
    }

    fn skip(&self, _line_num: usize, line_content: &str) -> (b: bool) {
        let v = chars_of(line_content);
        let b = (v.len() == 1 && v[0] == '\n') || (v.len() == 2 && v[0] == '\r' && v[1] == '\n');
        proof {
            if b {
                if v.len() == 1 {
                    assert(v@ =~= seq!['\n']);
                } else {
                    assert(v@ =~= seq!['\r', '\n']);
                }
            } else {
                if v@ == seq!['\n'] {
                    assert(v@.len() == 1 && v@[0] == '\n');
                }
                if v@ == seq!['\r', '\n'] {
                    assert(v@.len() == 2 && v@[0] == '\r' && v@[1] == '\n');
                }
            }
        }
        b
    }

    fn get_self_info(&self) -> (s: String) {
        String::from_str("SkipEmptyLines")
    }
}

/// One of the line rules that this library knows.
#[derive(Debug)]
pub enum LineSkipper {
    FromStart(SkipLinesFromStart),
    FromEnd(SkipLinesFromEnd),
    StartingWith(SkipLinesStartingWith),
    TakeStartingWith(TakeLinesStartingWith),
    ByRegex(SkipLinesByRegex),
    Empty(SkipEmptyLines),
}

impl SkipTakeLines for LineSkipper {
    open spec fn skips(&self, line_num: usize, line_content: Seq<char>) -> bool {
        match self {
            LineSkipper::FromStart(f) => f.skips(line_num, line_content),
            LineSkipper::FromEnd(f) => f.skips(line_num, line_content),
            LineSkipper::StartingWith(f) => f.skips(line_num, line_content),
            LineSkipper::TakeStartingWith(f) => f.skips(line_num, line_content),
            LineSkipper::ByRegex(f) => f.skips(line_num, line_content),
            LineSkipper::Empty(f) => f.skips(line_num, line_content),
        }
    }

    open spec fn self_info(&self) -> Seq<char> {
        match self {
            LineSkipper::FromStart(f) => f.self_info(),
            LineSkipper::FromEnd(f) => f.self_info(),
            LineSkipper::StartingWith(f) => f.self_info(),
            LineSkipper::TakeStartingWith(f) => f.self_info(),
            LineSkipper::ByRegex(f) => f.self_info(),
            LineSkipper::Empty(f) => f.self_info(),
        }
    }

    fn skip(&self, line_num: usize, line_content: &str) -> (b: bool) {
        match self {
            LineSkipper::FromStart(f) => f.skip(line_num, line_content),
            LineSkipper::FromEnd(f) => f.skip(line_num, line_content),
            LineSkipper::StartingWith(f) => f.skip(line_num, line_content),
            LineSkipper::TakeStartingWith(f) => f.skip(line_num, line_content),
            LineSkipper::ByRegex(f) => f.skip(line_num, line_content),
            LineSkipper::Empty(f) => f.skip(line_num, line_content),
        }
    }

    fn get_self_info(&self) -> (s: String) {
        match self {
            LineSkipper::FromStart(f) => f.get_self_info(),
            LineSkipper::FromEnd(f) => f.get_self_info(),
            LineSkipper::StartingWith(f) => f.get_self_info(),
            LineSkipper::TakeStartingWith(f) => f.get_self_info(),
            LineSkipper::ByRegex(f) => f.get_self_info(),
            LineSkipper::Empty(f) => f.get_self_info(),
        }
    }
}

/// Whether any of `rules` drops the line.
pub open spec fn any_skips(rules: Seq<LineSkipper>, line_num: usize, line_content: Seq<char>) -> bool {
    exists|i: int| 0 <= i < rules.len() && (#[trigger] rules[i]).skips(line_num, line_content)
}

/// What a [`LineSkipper`] is set to do, with its texts as character
/// sequences and a regular expression as its pattern.
pub enum LineSkipperView {
    FromStart { skip_num_lines: usize },
    FromEnd { skip_num_lines: usize, lines_total: usize },
    StartingWith { starts_with: Seq<char> },
    TakeStartingWith { starts_with: Seq<char> },
    ByRegex { pattern: Seq<char> },
    Empty,
}

impl View for LineSkipper {
    type V = LineSkipperView;

    open spec fn view(&self) -> LineSkipperView {
        match self {
            LineSkipper::FromStart(f) => LineSkipperView::FromStart {
                skip_num_lines: f.skip_num_lines,
            },
            LineSkipper::FromEnd(f) => LineSkipperView::FromEnd {
                skip_num_lines: f.skip_num_lines,
                lines_total: f.lines_total,
            },
            LineSkipper::StartingWith(f) => LineSkipperView::StartingWith {
                starts_with: f.starts_with@,
            },
            LineSkipper::TakeStartingWith(f) => LineSkipperView::TakeStartingWith {
                starts_with: f.starts_with@,
            },
            LineSkipper::ByRegex(f) => LineSkipperView::ByRegex { pattern: regex_pattern(f.regex) },
            LineSkipper::Empty(_) => LineSkipperView::Empty,
        }
    }
}

/// What the rules of a list are set to do.
pub open spec fn skipper_views(rules: Seq<LineSkipper>) -> Seq<LineSkipperView> {
    rules.map_values(|r: LineSkipper| r@)
}

} // verus!
