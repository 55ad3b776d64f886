use crate::compact::{compact_chars, compact_empty, compact_push, compact_texts, compact_to_string};
use crate::errors::{PattiCsvError, PattiCsvErrorView, TokenizerError};
use crate::skip_take_lines::{any_skips, LineSkipper, SkipTakeLines};
use crate::text::{
    chars_of, decimal, push_decimal, string_of_range, strip_terminator, without_terminator,
};
use compact_str::CompactString;
use std::collections::VecDeque;
use vstd::prelude::*;
use vstd::utf8::encode_utf8;

verus! {

/// Where the tokenizer stands between two characters of a line.
#[derive(Debug, Clone, Copy, PartialEq, Eq, Structural)]
pub enum State {
    /// Nothing has been read yet.
    Start,
    /// A delimiter has just been read: the next character opens a field.
    Scan,
    /// Inside a field that was not opened with the enclosure character.
    Field,
    /// Inside a field that was opened with the enclosure character.
    QuotedField,
    /// Inside an enclosed field, right after an enclosure character: it
    /// either closes the field or is the first half of an escaped one.
    QuoteInQuotedField,
}

/// The tokenizer between two characters: its state and the tokens built so
/// far, the last of which may still grow.
pub struct ScanPoint {
    pub state: State,
    pub tokens: Seq<Seq<char>>,
}

/// The two ways in which a line can be malformed, with the number of tokens
/// begun when the fault was met.
pub enum ScanFault {
    IllegalEnclChar { token_num: nat },
    UnescapedEnclChar { token_num: nat },
}

/// The point before the first character of a line.
pub open spec fn scan_start() -> ScanPoint {
    ScanPoint { state: State::Start, tokens: Seq::empty() }
}

/// `tokens` with `c` appended to the last of them.
pub open spec fn grow_last(tokens: Seq<Seq<char>>, c: char) -> Seq<Seq<char>> {
    tokens.update(tokens.len() - 1, tokens.last().push(c))
}

/// One transition: the point reached from `p` by reading `c`.
pub open spec fn scan_char(delim: char, encl: Option<char>, p: ScanPoint, c: char) -> Result<
    ScanPoint,
    ScanFault,
> {
    match p.state {
        State::Start | State::Scan => if c == delim {
            Ok(ScanPoint { state: State::Scan, tokens: p.tokens.push(Seq::empty()) })
        } else if encl == Some(c) {
            Ok(ScanPoint { state: State::QuotedField, tokens: p.tokens.push(Seq::empty()) })
        } else {
            Ok(ScanPoint { state: State::Field, tokens: p.tokens.push(seq![c]) })
        },
        State::Field => if c == delim {
            Ok(ScanPoint { state: State::Scan, tokens: p.tokens })
        } else if encl == Some(c) {
            Err(ScanFault::IllegalEnclChar { token_num: p.tokens.len() })
        } else {
            Ok(ScanPoint { state: State::Field, tokens: grow_last(p.tokens, c) })
        },
        State::QuotedField => if encl == Some(c) {
            Ok(ScanPoint { state: State::QuoteInQuotedField, tokens: p.tokens })
        } else {
            Ok(ScanPoint { state: State::QuotedField, tokens: grow_last(p.tokens, c) })
        },
        State::QuoteInQuotedField => if c == delim {
            Ok(ScanPoint { state: State::Scan, tokens: p.tokens })
        } else if encl == Some(c) {
            Ok(ScanPoint { state: State::QuotedField, tokens: grow_last(p.tokens, c) })
        } else {
            Err(ScanFault::UnescapedEnclChar { token_num: p.tokens.len() })
        },
    }
}

/// The point reached from `p` by reading all of `s`, or the first fault.
pub open spec fn scan_from(delim: char, encl: Option<char>, p: ScanPoint, s: Seq<char>) -> Result<
    ScanPoint,
    ScanFault,
>
    decreases s.len(),
{
    if s.len() == 0 {
        Ok(p)
    } else {
        match scan_char(delim, encl, p, s[0]) {
            Ok(q) => scan_from(delim, encl, q, s.drop_first()),
            Err(f) => Err(f),
        }
    }
}

/// What the end of the line makes of the point `p`: a line that ends on a
/// delimiter has one more, empty, token; one that ends inside an enclosed
/// field is malformed.
pub open spec fn scan_end(p: ScanPoint) -> Result<Seq<Seq<char>>, ScanFault> {
    match p.state {
        State::Scan => Ok(p.tokens.push(Seq::empty())),
        State::QuotedField => Err(ScanFault::UnescapedEnclChar { token_num: p.tokens.len() }),
        _ => Ok(p.tokens),
    }
}

/// The tokens of the line `s`, or the fault that makes it malformed.
pub open spec fn line_tokens(delim: char, encl: Option<char>, s: Seq<char>) -> Result<
    Seq<Seq<char>>,
    ScanFault,
> {
    match scan_from(delim, encl, scan_start(), s) {
        Ok(p) => scan_end(p),
        Err(f) => Err(f),
    }
}

/// The error that reports the fault `f` for line `line`.
pub open spec fn fault_at(f: ScanFault, line: usize) -> TokenizerError {
    match f {
        ScanFault::IllegalEnclChar { token_num } => TokenizerError::IllegalEnclChar {
            line,
            token_num: token_num as usize,
        },
        ScanFault::UnescapedEnclChar { token_num } => TokenizerError::UnescapedEnclChar {
            line,
            token_num: token_num as usize,
        },
    }
}

/// The texts of a run of strings.
pub open spec fn texts(tokens: Seq<String>) -> Seq<Seq<char>> {
    tokens.map_values(|t: String| t@)
}

/// What tokenizing line number `line` with text `s` returns: its tokens, or
/// the tokenizer error with the line's number.
pub open spec fn tokenize_outcome(
    delim: char,
    encl: Option<char>,
    line: usize,
    s: Seq<char>,
    r: Result<VecDeque<String>, PattiCsvError>,
) -> bool {
    match line_tokens(delim, encl, s) {
        Ok(tokens) => r is Ok && texts(r->Ok_0@) == tokens,
        Err(f) => r is Err && r->Err_0@ == PattiCsvErrorView::Tokenize(fault_at(f, line)),
    }
}

/// Splits lines into tokens at a delimiter character, honouring an optional
/// enclosure character: inside a pair of them the delimiter is plain text
/// and a doubled enclosure character stands for one.
#[derive(Debug)]
pub struct DelimitedLineTokenizer {
    pub save_skipped_lines: bool,
    pub delim_char: char,
    pub encl_char: Option<char>,
    /// The rules that drop lines before they are tokenized. A line is
    /// dropped where any of them says so.
    pub skip_take_lines_fns: Option<Vec<LineSkipper>>,
}

impl DelimitedLineTokenizer {
    pub fn new(
        delim: char,
        enclc: Option<char>,
        skip_take_lines_fns: Option<Vec<LineSkipper>>,
        save_skipped_lines: bool,
    ) -> (dlt: Self)
        ensures
            dlt.delim_char == delim,
            dlt.encl_char == enclc,
            dlt.skip_take_lines_fns == skip_take_lines_fns,
            dlt.save_skipped_lines == save_skipped_lines,
    {
        DelimitedLineTokenizer {
            save_skipped_lines,
            delim_char: delim,
            encl_char: enclc,
            skip_take_lines_fns,
        }
    }

    /// The tokenizer for comma-separated values with `"` as the enclosure
    /// character.
    pub fn csv(skip_take_lines_fns: Option<Vec<LineSkipper>>, save_skipped_lines: bool) -> (dlt:
        Self)
        ensures
            dlt.delim_char == ',',
            dlt.encl_char == Some('"'),
            dlt.skip_take_lines_fns == skip_take_lines_fns,
            dlt.save_skipped_lines == save_skipped_lines,
    {
        DelimitedLineTokenizer::new(',', Some('"'), skip_take_lines_fns, save_skipped_lines)
    }

    /// The tokenizer for tab-separated values, without an enclosure
    /// character.
    pub fn tsv(skip_take_lines_fns: Option<Vec<LineSkipper>>, save_skipped_lines: bool) -> (dlt:
        Self)
        ensures
            dlt.delim_char == '\t',
            dlt.encl_char is None,
            dlt.skip_take_lines_fns == skip_take_lines_fns,
            dlt.save_skipped_lines == save_skipped_lines,
    {
        DelimitedLineTokenizer::new('\t', None, skip_take_lines_fns, save_skipped_lines)
    }

    /// Whether the rules drop line number `line_num` with text `line`.
    pub open spec fn skips_line(&self, line_num: usize, line: Seq<char>) -> bool {
        match self.skip_take_lines_fns {
            Some(rules) => any_skips(rules@, line_num, line),
            None => false,
        }
    }

    /// Whether the rules drop line number `line_counter` with text `line`.
    pub fn skip_line_by_skiptake_sanitizer(&self, line_counter: usize, line: &str) -> (b: bool)
        ensures
            b == self.skips_line(line_counter, line@),
    {
        match &self.skip_take_lines_fns {
            Some(rules) => {
                let mut i: usize = 0;
                while i < rules.len()
                    invariant
                        i <= rules@.len(),
                        self.skip_take_lines_fns matches Some(r) && r@ == rules@,
                        forall|j: int| 0 <= j < i ==> !(#[trigger] rules@[j]).skips(line_counter, line@),
                    decreases rules.len() - i,
                {
                    if rules[i].skip(line_counter, line) {
                        assert(rules@[i as int].skips(line_counter, line@));
                        return true;
                    }
                    i += 1;
                }
                false
            },
            None => false,
        }
    }

    fn push_onto_last(buf: &mut Vec<CompactString>, c: char)
        requires
            old(buf)@.len() > 0,
        ensures
            compact_texts(final(buf)@) == grow_last(compact_texts(old(buf)@), c),
    {
        let mut last = buf.pop().unwrap();
        compact_push(&mut last, c);
        buf.push(last);
        assert(compact_texts(buf@) =~= grow_last(compact_texts(old(buf)@), c));
    }

    fn begin_token(buf: &mut Vec<CompactString>, first: Option<char>)
        ensures
            compact_texts(final(buf)@) == compact_texts(old(buf)@).push(
                match first {
                    Some(c) => seq![c],
                    None => Seq::empty(),
                },
            ),
    {
        let mut cs = compact_empty();
        if let Some(c) = first {
            compact_push(&mut cs, c);
        }
        buf.push(cs);
        assert(compact_texts(buf@) =~= compact_texts(old(buf)@).push(
            match first {
                Some(c) => seq![c],
                None => Seq::empty(),
            },
        ));
    }

    fn tokenize_inner(&self, buf: &mut Vec<CompactString>, line_num: usize, s: &str) -> (r: Result<
        VecDeque<String>,
        PattiCsvError,
    >)
        requires
            old(buf)@.len() == 0,
        ensures
            tokenize_outcome(self.delim_char, self.encl_char, line_num, s@, r),
    {
        let mut state = State::Start;
        let delim = self.delim_char;
        let encl = self.encl_char;
        assert(compact_texts(buf@) =~= Seq::empty());
        assert(s@.skip(0) =~= s@);

        for c in it: s.chars()
            invariant
                it.seq() == s@,
                state == State::Field || state == State::QuotedField || state
                    == State::QuoteInQuotedField ==> buf@.len() > 0,
                scan_from(
                    delim,
                    encl,
                    ScanPoint { state, tokens: compact_texts(buf@) },
                    s@.skip(it.index() as int),
                ) == scan_from(delim, encl, scan_start(), s@),
                delim == self.delim_char,
                encl == self.encl_char,
        {
            let ghost before = ScanPoint { state, tokens: compact_texts(buf@) };
            let ghost rest = s@.skip(it.index() as int);
            assert(rest.len() > 0 && rest[0] == c);
            assert(rest.drop_first() =~= s@.skip(it.index() + 1));
            let is_encl = match encl {
                Some(e) => e == c,
                None => false,
            };
            state =
            match state {
                State::Field => {
                    if c == delim {
                        State::Scan
                    } else if is_encl {
                        return Err(
                            PattiCsvError::Tokenize(
                                TokenizerError::IllegalEnclChar {
                                    line: line_num,
                                    token_num: buf.len(),
                                },
                            ),
                        );
                    } else {
                        Self::push_onto_last(buf, c);
                        State::Field
                    }
                },
                State::QuotedField => {
                    if is_encl {
                        State::QuoteInQuotedField
                    } else {
                        Self::push_onto_last(buf, c);
                        State::QuotedField
                    }
                },
                State::Scan | State::Start => {
                    if c == delim {
                        Self::begin_token(buf, None);
                        State::Scan
                    } else if is_encl {
                        Self::begin_token(buf, None);
                        State::QuotedField
                    } else {
                        Self::begin_token(buf, Some(c));
                        State::Field
                    }
                },
                State::QuoteInQuotedField => {
                    if c == delim {
                        State::Scan
                    } else if is_encl {
                        Self::push_onto_last(buf, c);
                        State::QuotedField
                    } else {
                        return Err(
                            PattiCsvError::Tokenize(
                                TokenizerError::UnescapedEnclChar {
                                    line: line_num,
                                    token_num: buf.len(),
                                },
                            ),
                        );
                    }
                },
            };
            assert(scan_char(delim, encl, before, c) == Ok::<ScanPoint, ScanFault>(
                ScanPoint { state, tokens: compact_texts(buf@) },
            ));
        }

        match state {
            State::Scan => {
                Self::begin_token(buf, None);
            },
            State::QuotedField => {
                return Err(
                    PattiCsvError::Tokenize(
                        TokenizerError::UnescapedEnclChar { line: line_num, token_num: buf.len() },
                    ),
                );
            },
            _ => (),
        }

        let mut res: VecDeque<String> = VecDeque::with_capacity(buf.len());
        let mut i: usize = 0;
        while i < buf.len()
            invariant
                i <= buf.len(),
                texts(res@) == compact_texts(buf@).take(i as int),
            decreases buf.len() - i,
        {
            let ghost before = res@;
            let token = compact_to_string(&buf[i]);
            res.push_back(token);
            i += 1;
            assert(res@ == before.push(token));
            assert(texts(res@) =~= texts(before).push(token@));
            assert(compact_texts(buf@).take(i as int) =~= compact_texts(buf@).take(i - 1).push(
                compact_chars(buf@[i - 1]),
            ));
        }
        assert(compact_texts(buf@).take(buf.len() as int) =~= compact_texts(buf@));
        Ok(res)
    }

    /// Splits the line `s` into its tokens. `line_num` is only reported in
    /// the error.
    pub fn tokenize(&self, line_num: usize, s: &str) -> (r: Result<
        VecDeque<String>,
        PattiCsvError,
    >)
        ensures
            tokenize_outcome(self.delim_char, self.encl_char, line_num, s@, r),
    {
        let mut buf: Vec<CompactString> = Vec::with_capacity(10);
        self.tokenize_inner(&mut buf, line_num, s)
    }
}

/// What a tokenizer has counted while it went through a stream of lines.
#[derive(Debug, Clone, PartialEq, Eq)]
pub struct DelimitedLineTokenizerStats {
    /// The number of the line that was read last, counted from one. The
    /// read that finds the stream at its end is counted too.
    pub curr_line_num: usize,
    /// The number of lines read that were not dropped.
    pub num_lines_read: usize,
    /// The number of lines that were tokenized without a fault.
    pub num_lines_tokenized: usize,
    /// The numbers of the dropped lines, each with the line's text where
    /// the tokenizer is set to keep it.
    pub skipped_lines: Vec<(usize, Option<String>)>,
    /// The number of bytes that the lines read took.
    pub bytes_read: usize,
}

/// What a [`DelimitedLineTokenizerStats`] says, with its texts as character
/// sequences.
pub struct StatsView {
    pub curr_line_num: usize,
    pub num_lines_read: usize,
    pub num_lines_tokenized: usize,
    pub skipped_lines: Seq<(usize, Option<Seq<char>>)>,
    pub bytes_read: usize,
}

/// What a list of dropped lines says.
pub open spec fn skipped_views(skipped: Seq<(usize, Option<String>)>) -> Seq<
    (usize, Option<Seq<char>>),
> {
    skipped.map_values(
        |e: (usize, Option<String>)|
            (
                e.0,
                match e.1 {
                    Some(t) => Some(t@),
                    None => None,
                },
            ),
    )
}

impl View for DelimitedLineTokenizerStats {
    type V = StatsView;

    open spec fn view(&self) -> StatsView {
        StatsView {
            curr_line_num: self.curr_line_num,
            num_lines_read: self.num_lines_read,
            num_lines_tokenized: self.num_lines_tokenized,
            skipped_lines: skipped_views(self.skipped_lines@),
            bytes_read: self.bytes_read,
        }
    }
}

/// The counts before the first line.
pub open spec fn no_stats() -> StatsView {
    StatsView {
        curr_line_num: 0,
        num_lines_read: 0,
        num_lines_tokenized: 0,
        skipped_lines: Seq::empty(),
        bytes_read: 0,
    }
}

impl DelimitedLineTokenizerStats {
    pub fn new() -> (stats: Self)
        ensures
            stats@ == no_stats(),
    {
        let stats = Self {
            curr_line_num: 0,
            num_lines_read: 0,
            num_lines_tokenized: 0,
            skipped_lines: Vec::with_capacity(5),
            bytes_read: 0,
        };
        assert(skipped_views(stats.skipped_lines@) =~= Seq::empty());
        stats
    }

    /// Whether exactly one line has been tokenized so far.
    pub fn is_at_first_unskipped_line_to_parse(&self) -> (b: bool)
        ensures
            b == (self.num_lines_tokenized == 1),
    {
        self.num_lines_tokenized == 1
    }
}

impl Default for DelimitedLineTokenizerStats {
    fn default() -> (stats: Self)
        ensures
            stats@ == no_stats(),
    {
        Self::new()
    }
}

/// What the source gave when it was asked for its next line.
#[derive(Debug)]
pub enum LineRead {
    /// Nothing: the source is at its end.
    End,
    /// A line, its terminator included, and the number of bytes it took.
    Line { text: String, num_bytes: usize },
    /// A failure, with the reason that the source gave.
    Failed { reason: String },
}

/// What became of a read.
#[derive(Debug)]
pub enum LineStep {
    /// The stream is over.
    Finished,
    /// The line was dropped: the next one is to be read.
    Skipped,
    /// The line's tokens, or the error that takes their place.
    Yielded(Result<VecDeque<String>, PattiCsvError>),
}

/// The message of the error for a read that failed.
pub open spec fn read_error_msg(line_num: usize, reason: Seq<char>) -> Seq<char> {
    "error reading line "@ + decimal(line_num as nat) + ". "@ + reason
}

/// Whether `r` holds the tokens, or the tokenizer error, `expected`.
pub open spec fn is_line_outcome(
    r: Result<VecDeque<String>, PattiCsvError>,
    expected: Result<Seq<Seq<char>>, TokenizerError>,
) -> bool {
    match expected {
        Ok(tokens) => r is Ok && texts(r->Ok_0@) == tokens,
        Err(e) => r is Err && r->Err_0@ == PattiCsvErrorView::Tokenize(e),
    }
}

impl DelimitedLineTokenizer {
    /// What tokenizing the raw line `line` with number `line_num` gives:
    /// the tokens of the line without its line terminator. White space at
    /// the end of the line belongs to the line's last field.
    pub open spec fn line_outcome(&self, line_num: usize, line: Seq<char>) -> Result<
        Seq<Seq<char>>,
        TokenizerError,
    > {
        match line_tokens(self.delim_char, self.encl_char, without_terminator(line)) {
            Ok(tokens) => Ok(tokens),
            Err(f) => Err(fault_at(f, line_num)),
        }
    }

    /// The counts after a read that gave no line: only the line number has
    /// moved on.
    pub open spec fn stats_after_no_line(s: StatsView) -> StatsView {
        StatsView { curr_line_num: s.curr_line_num.saturating_add(1), ..s }
    }

    /// The counts after the raw line `line` of `num_bytes` bytes was read.
    /// Every line moves the line number and the bytes on; a dropped line
    /// is noted in the list of dropped lines, any other line is counted as
    /// read, and as tokenized where it has no fault. The counters stay at
    /// the machine's largest number once they reach it.
    pub open spec fn stats_after_line(&self, s: StatsView, line: Seq<char>, num_bytes: usize) -> StatsView {
        let line_num = s.curr_line_num.saturating_add(1);
        let dropped = self.skips_line(line_num, line);
        StatsView {
            curr_line_num: line_num,
            num_lines_read: if dropped {
                s.num_lines_read
            } else {
                s.num_lines_read.saturating_add(1)
            },
            num_lines_tokenized: if !dropped && self.line_outcome(line_num, line) is Ok {
                s.num_lines_tokenized.saturating_add(1)
            } else {
                s.num_lines_tokenized
            },
            skipped_lines: if dropped {
                s.skipped_lines.push(
                    (
                        line_num,
                        if self.save_skipped_lines {
                            Some(line)
                        } else {
                            None
                        },
                    ),
                )
            } else {
                s.skipped_lines
            },
            bytes_read: s.bytes_read.saturating_add(num_bytes),
        }
    }

    /// The counters only ever advance, and the list of dropped lines only
    /// ever grows.
    pub proof fn lemma_stats_advance(&self, s: StatsView, line: Seq<char>, num_bytes: usize)
        ensures
            ({
                let after = self.stats_after_line(s, line, num_bytes);
                &&& after.curr_line_num >= s.curr_line_num
                &&& after.num_lines_read >= s.num_lines_read
                &&& after.num_lines_tokenized >= s.num_lines_tokenized
                &&& after.bytes_read >= s.bytes_read
                &&& s.skipped_lines.is_prefix_of(after.skipped_lines)
            }),
            Self::stats_after_no_line(s).curr_line_num >= s.curr_line_num,
    {
    }

    /// Takes what a read of the source gave, counts it in `stats`, and says
    /// what is to be done: the end of the source ends the stream; a failed
    /// read is reported with the line's number; a line that the rules drop
    /// is noted and passed over; any other line is tokenized, without its
    /// line terminator.
    pub fn advance(&self, stats: &mut DelimitedLineTokenizerStats, read: LineRead) -> (step:
        LineStep)
        ensures
            match read {
                LineRead::End => step is Finished && final(stats)@ == Self::stats_after_no_line(
                    old(stats)@,
                ),
                LineRead::Failed { reason } => {
                    &&& final(stats)@ == Self::stats_after_no_line(old(stats)@)
                    &&& step matches LineStep::Yielded(Err(e))
                    &&& e@ == (PattiCsvErrorView::Generic {
                        msg: read_error_msg(final(stats).curr_line_num, reason@),
                    })
                },
                LineRead::Line { text, num_bytes } => {
                    &&& final(stats)@ == self.stats_after_line(old(stats)@, text@, num_bytes)
                    &&& if self.skips_line(final(stats).curr_line_num, text@) {
                        step is Skipped
                    } else {
                        step matches LineStep::Yielded(r) && is_line_outcome(
                            r,
                            self.line_outcome(final(stats).curr_line_num, text@),
                        )
                    }
                },
            },
    {
        stats.curr_line_num = stats.curr_line_num.saturating_add(1);
        match read {
            LineRead::End => LineStep::Finished,
            LineRead::Failed { reason } => {
                let mut msg = String::from_str("error reading line ");
                push_decimal(&mut msg, stats.curr_line_num);
                msg.append(". ");
                msg.append(reason.as_str());
                LineStep::Yielded(Err(PattiCsvError::Generic { msg }))
            },
            LineRead::Line { text, num_bytes } => {
                stats.bytes_read = stats.bytes_read.saturating_add(num_bytes);
                if self.skip_line_by_skiptake_sanitizer(stats.curr_line_num, text.as_str()) {
                    let ghost before = stats.skipped_lines@;
                    let kept = if self.save_skipped_lines {
                        Some(text)
                    } else {
                        None
                    };
                    stats.skipped_lines.push((stats.curr_line_num, kept));
                    assert(skipped_views(stats.skipped_lines@) =~= skipped_views(before).push(
                        (
                            stats.curr_line_num,
                            if self.save_skipped_lines {
                                Some(text@)
                            } else {
                                None
                            },
                        ),
                    ));
                    LineStep::Skipped
                } else {
                    stats.num_lines_read = stats.num_lines_read.saturating_add(1);
                    let line = strip_terminator(text.as_str());
                    let r = self.tokenize(stats.curr_line_num, line.as_str());
                    if r.is_ok() {
                        stats.num_lines_tokenized = stats.num_lines_tokenized.saturating_add(1);
                    }
                    LineStep::Yielded(r)
                }
            },
        }
    }

    /// The tokenizer's run over the text `data`, which it takes line by
    /// line.
    pub fn tokenize_iter<'dlt>(&'dlt self, data: &str) -> (it: DelimitedLineTokenizerIter<'dlt>)
        ensures
            it.tokenizer() == *self,
            it.stats()@ == no_stats(),
            it.remaining() == data@,
    {
        DelimitedLineTokenizerIter::new(self, data)
    }
}

/// The length of the first line of `rest`, its terminator included: up to
/// and with the first line feed, or all of `rest` where it has none.
pub open spec fn first_line_len(rest: Seq<char>) -> nat
    decreases rest.len(),
{
    if rest.len() == 0 {
        0
    } else if rest[0] == '\n' {
        1
    } else {
        1 + first_line_len(rest.drop_first())
    }
}

/// The first line of a text that is not empty is not empty, and no longer
/// than the text.
pub proof fn lemma_first_line_len(rest: Seq<char>)
    ensures
        first_line_len(rest) <= rest.len(),
        rest.len() > 0 ==> first_line_len(rest) >= 1,
    decreases rest.len(),
{
    if rest.len() > 0 && rest[0] != '\n' {
        lemma_first_line_len(rest.drop_first());
    }
}

/// Where a run over a text stands after a request for the next line's
/// tokens: what the request gave, the counts, and the text not yet read.
pub struct Admission {
    /// The tokens of the first line that the rules let through, or the
    /// fault in it; `None` where the text ended first.
    pub yielded: Option<Result<Seq<Seq<char>>, TokenizerError>>,
    pub stats: StatsView,
    pub rest: Seq<char>,
}

/// What a request for the next line's tokens gives, from the counts
/// `stats` and the unread text `rest`: lines are read and counted until one
/// is not dropped by the rules; that line is tokenized. The request that
/// finds no text left gives nothing, and counts as one line number.
pub open spec fn admitted(dlt: DelimitedLineTokenizer, stats: StatsView, rest: Seq<char>) -> Admission
    decreases rest.len(),
    via admitted_decreases
{
    if rest.len() == 0 {
        Admission {
            yielded: None,
            stats: DelimitedLineTokenizer::stats_after_no_line(stats),
            rest,
        }
    } else {
        let k = first_line_len(rest) as int;
        let line = rest.take(k);
        let line_num = stats.curr_line_num.saturating_add(1);
        let counted = dlt.stats_after_line(stats, line, encode_utf8(line).len() as usize);
        if dlt.skips_line(line_num, line) {
            admitted(dlt, counted, rest.skip(k))
        } else {
            Admission {
                yielded: Some(dlt.line_outcome(line_num, line)),
                stats: counted,
                rest: rest.skip(k),
            }
        }
    }
}

#[via_fn]
proof fn admitted_decreases(dlt: DelimitedLineTokenizer, stats: StatsView, rest: Seq<char>) {
    lemma_first_line_len(rest);
}

/// Whether `r` is what the request `yielded`.
pub open spec fn is_yield(
    r: Option<Result<VecDeque<String>, PattiCsvError>>,
    yielded: Option<Result<Seq<Seq<char>>, TokenizerError>>,
) -> bool {
    match yielded {
        Some(expected) => r is Some && is_line_outcome(r->Some_0, expected),
        None => r is None,
    }
}

/// A text held in memory that is read line by line.
pub struct TextLines {
    data: Vec<char>,
    pos: usize,
}

impl TextLines {
    #[verifier::type_invariant]
    spec fn well_formed(&self) -> bool {
        self.pos <= self.data@.len()
    }

    /// The text not yet read.
    pub closed spec fn remaining(&self) -> Seq<char> {
        self.data@.skip(self.pos as int)
    }

    pub fn new(data: &str) -> (lines: Self)
        ensures
            lines.remaining() == data@,
    {
        let chars = chars_of(data);
        assert(chars@.skip(0) =~= chars@);
        Self { data: chars, pos: 0 }
    }

    /// The index behind the line that begins at `from`.
    fn line_end(&self, from: usize) -> (end: usize)
        requires
            from < self.data@.len(),
        ensures
            from < end <= self.data@.len(),
            end - from == first_line_len(self.data@.skip(from as int)),
    {
        let mut end: usize = from;
        assert(self.data@.skip(from as int).skip(0) =~= self.data@.skip(from as int));
        while end < self.data.len() && self.data[end] != '\n'
            invariant
                from <= end <= self.data@.len(),
                first_line_len(self.data@.skip(from as int)) == (end - from) + first_line_len(
                    self.data@.skip(end as int),
                ),
            decreases self.data.len() - end,
        {
            assert(self.data@.skip(end as int).drop_first() =~= self.data@.skip(end + 1));
            end += 1;
        }
        if end < self.data.len() {
            end += 1;
        }
        end
    }

    /// Reads the next line, its terminator included; `None` at the end of
    /// the text.
    pub fn next_line(&mut self) -> (r: Option<String>)
        ensures
            match r {
                Some(line) => {
                    let k = first_line_len(old(self).remaining()) as int;
                    &&& old(self).remaining().len() > 0
                    &&& line@ == old(self).remaining().take(k)
                    &&& final(self).remaining() == old(self).remaining().skip(k)
                },
                None => old(self).remaining().len() == 0 && final(self).remaining() == old(
                    self,
                ).remaining(),
            },
    {
        proof {
            use_type_invariant(&*self);
        }
        if self.pos >= self.data.len() {
            return None;
        }
        let ghost rest = self.data@.skip(self.pos as int);
        let end = self.line_end(self.pos);
        let line = string_of_range(&self.data, self.pos, end);
        proof {
            assert(rest.take(end - self.pos) =~= self.data@.subrange(self.pos as int, end as int));
            assert(rest.skip(end - self.pos) =~= self.data@.skip(end as int));
        }
        self.pos = end;
        Some(line)
    }
}

/// A tokenizer's run over a text held in memory: each request gives the
/// tokens of the next line that the tokenizer's rules let through.
pub struct DelimitedLineTokenizerIter<'dlt> {
    dlt: &'dlt DelimitedLineTokenizer,
    source: TextLines,
    stats: DelimitedLineTokenizerStats,
}

impl<'dlt> DelimitedLineTokenizerIter<'dlt> {
    /// The tokenizer that runs.
    pub closed spec fn tokenizer(&self) -> DelimitedLineTokenizer {
        *self.dlt
    }

    /// The counts so far.
    pub closed spec fn stats(&self) -> DelimitedLineTokenizerStats {
        self.stats
    }

    /// The text not yet read.
    pub closed spec fn remaining(&self) -> Seq<char> {
        self.source.remaining()
    }

    fn new(dlt: &'dlt DelimitedLineTokenizer, data: &str) -> (it: Self)
        ensures
            it.tokenizer() == *dlt,
            it.stats()@ == no_stats(),
            it.remaining() == data@,
    {
        Self { dlt, source: TextLines::new(data), stats: DelimitedLineTokenizerStats::default() }
    }

    pub fn get_stats(&self) -> (stats: &DelimitedLineTokenizerStats)
        ensures
            *stats == self.stats(),
    {
        &self.stats
    }

    /// The tokens of the next line that the rules let through, the fault
    /// in that line, or `None` where the text has come to its end.
    pub fn next(&mut self) -> (r: Option<Result<VecDeque<String>, PattiCsvError>>)
        ensures
            final(self).tokenizer() == old(self).tokenizer(),
            ({
                let a = admitted(old(self).tokenizer(), old(self).stats()@, old(self).remaining());
                &&& is_yield(r, a.yielded)
                &&& final(self).stats()@ == a.stats
                &&& final(self).remaining() == a.rest
            }),
    {
        let ghost goal = admitted(old(self).tokenizer(), old(self).stats()@, old(self).remaining());
        loop
            invariant
                self.dlt == old(self).dlt,
                goal == admitted(old(self).tokenizer(), old(self).stats()@, old(self).remaining()),
                admitted(*self.dlt, self.stats@, self.source.remaining()) == goal,
            decreases self.source.remaining().len(),
        {
            let ghost rest = self.source.remaining();
            proof {
                lemma_first_line_len(rest);
            }
            let read = match self.source.next_line() {
                Some(text) => {
                    let num_bytes = text.as_str().len();
                    LineRead::Line { text, num_bytes }
                },
                None => LineRead::End,
            };
            let step = self.dlt.advance(&mut self.stats, read);
            match step {
                LineStep::Yielded(r) => {
                    return Some(r);
                },
                LineStep::Finished => {
                    return None;
                },
                LineStep::Skipped => {},
            }
        }
    }
}

} // verus!
