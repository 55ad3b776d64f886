use crate::text::{debug_quote, debug_quoted, decimal, push_decimal};
use vstd::prelude::*;

verus! {

/// Why a line could not be split into tokens. Both variants carry the
/// one-based number of the physical line and the one-based number of the
/// token that was being built when the offending character was met.
#[derive(Debug, Clone, Copy, PartialEq, Eq, Structural)]
pub enum TokenizerError {
    /// The enclosure character occurred inside a field that was not opened
    /// with it.
    IllegalEnclChar { line: usize, token_num: usize },
    /// An enclosed field was closed by something other than a delimiter, or
    /// was never closed.
    UnescapedEnclChar { line: usize, token_num: usize },
}

/// A failure of a token transform, with the position it was met at as far
/// as that is known.
#[derive(Debug, Clone, PartialEq, Eq)]
pub struct SanitizeError {
    pub msg: String,
    pub line: Option<usize>,
    pub column: Option<usize>,
    pub from_token: String,
}

/// What a [`SanitizeError`] says, with its texts as character sequences.
pub struct SanitizeErrorView {
    pub msg: Seq<char>,
    pub line: Option<usize>,
    pub column: Option<usize>,
    pub from_token: Seq<char>,
}

impl View for SanitizeError {
    type V = SanitizeErrorView;

    open spec fn view(&self) -> SanitizeErrorView {
        SanitizeErrorView {
            msg: self.msg@,
            line: self.line,
            column: self.column,
            from_token: self.from_token@,
        }
    }
}

/// The error with message `msg` for token `from_token` and no position.
pub open spec fn minimal_error(msg: Seq<char>, from_token: Seq<char>) -> SanitizeErrorView {
    SanitizeErrorView { msg, line: None, column: None, from_token }
}

/// `se` with `msg` appended to its message, and with `line` and `column` in
/// place of the stored positions where they are given.
pub open spec fn extended_error(
    se: SanitizeErrorView,
    msg: Option<Seq<char>>,
    line: Option<usize>,
    column: Option<usize>,
) -> SanitizeErrorView {
    SanitizeErrorView {
        msg: match msg {
            Some(m) => se.msg + m,
            None => se.msg,
        },
        line: if line is Some { line } else { se.line },
        column: if column is Some { column } else { se.column },
        from_token: se.from_token,
    }
}

impl SanitizeError {
    /// An error that knows only its message and the token it came from.
    pub fn minim(msg: String, from_token: String) -> (e: Self)
        ensures
            e@ == minimal_error(msg@, from_token@),
    {
        Self { msg, line: None, column: None, from_token }
    }

    /// Adds context to `se`: `msg` is appended to the message, `line` and
    /// `column` replace the stored positions where they are given.
    pub fn extend(
        se: SanitizeError,
        msg: Option<String>,
        line: Option<usize>,
        column: Option<usize>,
    ) -> (e: Self)
        ensures
            e@ == extended_error(
                se@,
                match msg {
                    Some(m) => Some(m@),
                    None => None,
                },
                line,
                column,
            ),
    {
        let SanitizeError { msg: old_msg, line: old_line, column: old_column, from_token } = se;
        let new_msg = match msg {
            Some(m) => {
                let mut extended_msg = old_msg;
                extended_msg.append(m.as_str());
                extended_msg
            },
            None => old_msg,
        };
        Self {
            msg: new_msg,
            line: if line.is_some() { line } else { old_line },
            column: if column.is_some() { column } else { old_column },
            from_token,
        }
    }
}

/// An error of a collaborating library, kept as the text it was reported
/// with.
#[derive(Debug, Clone, PartialEq, Eq)]
pub enum WrappedErrors {
    VenumError(String),
}

/// Everything that can go wrong between a raw line and a typed row.
#[derive(Debug, Clone, PartialEq, Eq)]
pub enum PattiCsvError {
    /// A failure with nothing but a message: a read that failed, a value
    /// that could not be typed.
    Generic { msg: String },
    /// The configuration contradicts itself or the data.
    ConfigError { msg: String },
    Wrapped(WrappedErrors),
    Tokenize(TokenizerError),
    Sanitize(SanitizeError),
}

/// What a [`PattiCsvError`] says, with its texts as character sequences.
pub enum PattiCsvErrorView {
    Generic { msg: Seq<char> },
    ConfigError { msg: Seq<char> },
    Wrapped { msg: Seq<char> },
    Tokenize(TokenizerError),
    Sanitize(SanitizeErrorView),
}

impl View for PattiCsvError {
    type V = PattiCsvErrorView;

    open spec fn view(&self) -> PattiCsvErrorView {
        match self {
            PattiCsvError::Generic { msg } => PattiCsvErrorView::Generic { msg: msg@ },
            PattiCsvError::ConfigError { msg } => PattiCsvErrorView::ConfigError { msg: msg@ },
            PattiCsvError::Wrapped(WrappedErrors::VenumError(msg)) => PattiCsvErrorView::Wrapped {
                msg: msg@,
            },
            PattiCsvError::Tokenize(e) => PattiCsvErrorView::Tokenize(*e),
            PattiCsvError::Sanitize(e) => PattiCsvErrorView::Sanitize(e@),
        }
    }
}

/// What a tokenizer error says in words.
pub open spec fn tokenizer_error_text(e: TokenizerError) -> Seq<char> {
    match e {
        TokenizerError::IllegalEnclChar { line, token_num } =>
            "Enclosure character used in regular, non-enclosed field. Line: "@ + decimal(
                line as nat,
            ) + ", token_num: "@ + decimal(token_num as nat),
        TokenizerError::UnescapedEnclChar { line, token_num } =>
            "Enclosure character in enclosed field not properly escaped. Line: "@ + decimal(
                line as nat,
            ) + ", token_num: "@ + decimal(token_num as nat),
    }
}

/// How a position that may be unknown is written.
pub open spec fn position_text(position: Option<usize>) -> Seq<char> {
    match position {
        Some(n) => "Some("@ + decimal(n as nat) + ")"@,
        None => "None"@,
    }
}

/// What a sanitize error says in words.
pub open spec fn sanitize_error_text(e: SanitizeErrorView) -> Seq<char> {
    "line: "@ + position_text(e.line) + ", column: "@ + position_text(e.column)
        + ", from_token: "@ + debug_quoted(e.from_token) + ", msg: "@ + debug_quoted(e.msg)
}

/// The name of an error's kind.
pub open spec fn error_kind_text(e: PattiCsvErrorView) -> Seq<char> {
    match e {
        PattiCsvErrorView::Generic { .. } => "Generic"@,
        PattiCsvErrorView::ConfigError { .. } => "ConfigError"@,
        PattiCsvErrorView::Wrapped { .. } => "Wrapped"@,
        PattiCsvErrorView::Tokenize(_) => "Tokenize"@,
        PattiCsvErrorView::Sanitize(_) => "Sanitize"@,
    }
}

fn push_position(s: &mut String, position: Option<usize>)
    ensures
        final(s)@ == old(s)@ + position_text(position),
{
    match position {
        Some(n) => {
            s.append("Some(");
            push_decimal(s, n);
            s.append(")");
            assert(s@ =~= old(s)@ + position_text(position));
        },
        None => {
            s.append("None");
        },
    }
}

impl TokenizerError {
    /// The error in words.
    pub fn to_string(&self) -> (s: String)
        ensures
            s@ == tokenizer_error_text(*self),
    {
        let (mut s, line, token_num) = match self {
            TokenizerError::IllegalEnclChar { line, token_num } => (
                String::from_str("Enclosure character used in regular, non-enclosed field. Line: "),
                *line,
                *token_num,
            ),
            TokenizerError::UnescapedEnclChar { line, token_num } => (
                String::from_str(
                    "Enclosure character in enclosed field not properly escaped. Line: ",
                ),
                *line,
                *token_num,
            ),
        };
        push_decimal(&mut s, line);
        s.append(", token_num: ");
        push_decimal(&mut s, token_num);
        s
    }
}

impl SanitizeError {
    /// The error in words.
    pub fn to_string(&self) -> (s: String)
        ensures
            s@ == sanitize_error_text(self@),
    {
        let mut s = String::from_str("line: ");
        push_position(&mut s, self.line);
        s.append(", column: ");
        push_position(&mut s, self.column);
        s.append(", from_token: ");
        let from_token = debug_quote(self.from_token.as_str());
        s.append(from_token.as_str());
        s.append(", msg: ");
        let msg = debug_quote(self.msg.as_str());
        s.append(msg.as_str());
        s
    }
}

impl PattiCsvError {
    /// The name of the error's kind.
    pub fn to_string(&self) -> (s: String)
        ensures
            s@ == error_kind_text(self@),
    {
        match self {
            PattiCsvError::Generic { .. } => String::from_str("Generic"),
            PattiCsvError::ConfigError { .. } => String::from_str("ConfigError"),
            PattiCsvError::Wrapped(_) => String::from_str("Wrapped"),
            PattiCsvError::Tokenize(_) => String::from_str("Tokenize"),
            PattiCsvError::Sanitize(_) => String::from_str("Sanitize"),
        }
    }
}

} // verus!
