use crate::data::{CellData, CellDataView, DataCell, DataCellRow, DataCellView};
use crate::errors::{PattiCsvError, PattiCsvErrorView, TokenizerError};
use crate::line_tokenizer::{
    admitted, texts, DelimitedLineTokenizer, DelimitedLineTokenizerIter,
    DelimitedLineTokenizerStats,
};
use crate::parser_common::{
    build_layout_template, chains_view, lacks_header, layout_template, lemma_sanitized_prefix_ok,
    sanitize_tokenizer_iter_res, sanitized_line,
};
use crate::parser_config::{
    typing_views, TransitizerMap, TypeColumnEntry, TypeColumnEntryView, ValueType,
};
use crate::skip_take_lines::LineSkipper;
use crate::text::{decimal, push_decimal};
use std::collections::VecDeque;
use vstd::prelude::*;

verus! {

/// The typing of a column that nothing is said about: text, without a
/// header of its own.
pub open spec fn stringly_typing() -> TypeColumnEntryView {
    TypeColumnEntryView {
        header: None,
        target_type: ValueType::String,
        chrono_pattern: None,
        map_to_none: None,
    }
}

/// `num_columns` text columns.
pub open spec fn stringly_typings(num_columns: nat) -> Seq<TypeColumnEntryView> {
    Seq::new(num_columns, |i: int| stringly_typing())
}

/// `num_columns` text columns.
pub fn stringly_typed(num_columns: usize) -> (typings: Vec<TypeColumnEntry>)
    ensures
        typing_views(typings@) == stringly_typings(num_columns as nat),
{
    let mut typings: Vec<TypeColumnEntry> = Vec::new();
    let mut i: usize = 0;
    while i < num_columns
        invariant
            i <= num_columns,
            typings@.len() == i,
            forall|j: int| 0 <= j < i ==> (#[trigger] typings@[j])@ == stringly_typing(),
        decreases num_columns - i,
    {
        typings.push(TypeColumnEntry::new(None, ValueType::String));
        i += 1;
    }
    assert(typing_views(typings@) =~= stringly_typings(num_columns as nat));
    typings
}

/// Whether the tokens of a column with this typing are taken as they are:
/// the column holds text, and no text stands for "no value".
pub open spec fn takes_verbatim(typing: TypeColumnEntryView) -> bool {
    typing.target_type == ValueType::String && (typing.map_to_none is None
        || typing.map_to_none->Some_0.len() == 0)
}

/// What a cell holds for the sanitized token `token`: nothing where the
/// token is empty, else the token, either as the cell's text or as the
/// text that is still to be parsed into the column's type.
pub open spec fn typed_data(token: Seq<char>, verbatim: bool) -> CellDataView {
    if token.len() == 0 {
        CellDataView::Absent
    } else if verbatim {
        CellDataView::Text(token)
    } else {
        CellDataView::Unparsed(token)
    }
}

/// An empty token leaves its cell without a value, whatever the column's
/// type, pattern and texts for "no value" are.
pub proof fn lemma_empty_token_is_absent(typing: TypeColumnEntryView)
    ensures
        typed_data(Seq::empty(), takes_verbatim(typing)) == CellDataView::Absent,
{
}

/// What a cell holds for the sanitized token `token`.
pub fn type_token(token: String, verbatim: bool) -> (data: CellData)
    ensures
        data@ == typed_data(token@, verbatim),
{
    if token.as_str().is_empty() {
        CellData::Absent
    } else if verbatim {
        CellData::Text(token)
    } else {
        CellData::Unparsed(token)
    }
}

/// The message of the error for a line whose number of tokens is not the
/// number of columns.
pub open spec fn mismatch_msg(len_typings: nat, len_data: nat) -> Seq<char> {
    "Column typings provided, but length "@ + decimal(len_typings)
        + " differs from actual length of data with num columns "@ + decimal(len_data)
}

/// The message of the error for a token that the value system could not
/// turn into a value of its column's type.
pub open spec fn typing_failure_msg(
    reason: Seq<char>,
    line_num: usize,
    column: usize,
    header: Seq<char>,
) -> Seq<char> {
    reason + "; line: "@ + decimal(line_num as nat) + "; column: "@ + decimal(column as nat)
        + "; header: "@ + header
}

/// The error for a token that the value system could not turn into a value
/// of its column's type: the system's `reason`, with the line, the column
/// and the column's header.
pub fn typing_failure(reason: &str, line_num: usize, column: usize, header: &str) -> (e:
    PattiCsvError)
    ensures
        e@ == (PattiCsvErrorView::Generic {
            msg: typing_failure_msg(reason@, line_num, column, header@),
        }),
{
    let mut msg = String::from_str(reason);
    msg.append("; line: ");
    push_decimal(&mut msg, line_num);
    msg.append("; column: ");
    push_decimal(&mut msg, column);
    msg.append("; header: ");
    msg.append(header);
    PattiCsvError::Generic { msg }
}

/// What is handed to the value system for a token that is to be parsed:
/// the token, the type that its value is to have, the pattern that the
/// value is written in, where the column's typing names one, and the texts
/// that stand for "no value", where the typing names any.
#[derive(Debug)]
pub struct ParseRequest<'a> {
    pub token: &'a String,
    pub target_type: ValueType,
    pub chrono_pattern: Option<&'a String>,
    pub map_to_none: Option<&'a Vec<String>>,
}

/// What a [`ParseRequest`] says, with its texts as character sequences.
pub struct ParseRequestView {
    pub token: Seq<char>,
    pub target_type: ValueType,
    pub chrono_pattern: Option<Seq<char>>,
    pub map_to_none: Option<Seq<Seq<char>>>,
}

impl<'a> View for ParseRequest<'a> {
    type V = ParseRequestView;

    open spec fn view(&self) -> ParseRequestView {
        ParseRequestView {
            token: self.token@,
            target_type: self.target_type,
            chrono_pattern: match self.chrono_pattern {
                Some(p) => Some(p@),
                None => None,
            },
            map_to_none: match self.map_to_none {
                Some(v) => Some(v@.map_values(|t: String| t@)),
                None => None,
            },
        }
    }
}

/// What a run knows of its rows: whether their layout is settled, and,
/// once it is, the empty cell of each column and for each column whether
/// its tokens are taken as they are.
pub struct LayoutView {
    pub settled: bool,
    pub template: Seq<DataCellView>,
    pub verbatim: Seq<bool>,
}

/// The layout of a run before a line has settled it.
pub open spec fn no_layout() -> LayoutView {
    LayoutView { settled: false, template: Seq::empty(), verbatim: Seq::empty() }
}

/// The settled layout for the typings `typings`, with the tokens of the
/// header line where there is one.
pub open spec fn layout_for(
    header_tokens: Option<Seq<Seq<char>>>,
    typings: Seq<TypeColumnEntryView>,
) -> LayoutView {
    LayoutView {
        settled: true,
        template: layout_template(header_tokens, typings),
        verbatim: typings.map_values(|t: TypeColumnEntryView| takes_verbatim(t)),
    }
}

/// The row that stands for the header line: each column's header, as the
/// text of a text cell.
pub open spec fn header_row(template: Seq<DataCellView>) -> Seq<DataCellView> {
    Seq::new(
        template.len(),
        |i: int|
            DataCellView {
                dtype: ValueType::String,
                idx: i as usize,
                name: template[i].name,
                data: CellDataView::Text(template[i].name),
            },
    )
}

/// The row for the sanitized tokens `clean`: the layout's cells, each with
/// what it holds for its token.
pub open spec fn filled_row(layout: LayoutView, clean: Seq<Seq<char>>) -> Seq<DataCellView> {
    Seq::new(
        layout.template.len(),
        |i: int|
            DataCellView {
                dtype: layout.template[i].dtype,
                idx: layout.template[i].idx,
                name: layout.template[i].name,
                data: typed_data(clean[i], layout.verbatim[i]),
            },
    )
}

/// Whether `row` has the columns of the settled layout `layout`: one cell
/// for each column, with its place in the row as its index and the
/// column's header as its name.
pub open spec fn has_columns(row: Seq<DataCellView>, layout: LayoutView) -> bool {
    &&& layout.settled
    &&& row.len() == layout.template.len()
    &&& forall|i: int|
        0 <= i < row.len() ==> (#[trigger] row[i]).idx == i && row[i].name
            == layout.template[i].name
}

/// What a run has established of its rows: the layout that each row is
/// made from.
#[derive(Debug)]
pub struct RowLayout {
    settled: bool,
    template: DataCellRow,
    verbatim: Vec<bool>,
}

impl View for RowLayout {
    type V = LayoutView;

    closed spec fn view(&self) -> LayoutView {
        LayoutView {
            settled: self.settled,
            template: self.template@,
            verbatim: self.verbatim@,
        }
    }
}

impl RowLayout {
    #[verifier::type_invariant]
    spec fn well_formed(&self) -> bool {
        self.template@.len() == self.verbatim@.len()
    }

    /// The layout before a line has settled it.
    pub fn new() -> (layout: Self)
        ensures
            layout@ == no_layout(),
    {
        Self { settled: false, template: DataCellRow::new(), verbatim: Vec::new() }
    }

    /// Whether a line has settled the layout.
    pub fn is_settled(&self) -> (b: bool)
        ensures
            b == self@.settled,
    {
        self.settled
    }

    /// The empty cells of the columns.
    pub fn get_template(&self) -> (template: &DataCellRow)
        ensures
            template@ == self@.template,
    {
        &self.template
    }

    /// The number of columns.
    pub fn len(&self) -> (n: usize)
        ensures
            n == self@.template.len(),
    {
        self.template.len()
    }

    fn for_typings(header_tokens: Option<&VecDeque<String>>, typings: &Vec<TypeColumnEntry>) -> (r:
        Result<Self, PattiCsvError>)
        ensures
            match r {
                Ok(layout) => layout@ == layout_for(
                    crate::parser_common::header_texts(header_tokens),
                    typing_views(typings@),
                ),
                Err(_) => exists|idx: int|
                    lacks_header(
                        crate::parser_common::header_texts(header_tokens),
                        typing_views(typings@),
                        idx,
                    ),
            },
    {
        let template = match build_layout_template(header_tokens, typings.as_slice()) {
            Ok(template) => template,
            Err(e) => {
                return Err(e);
            },
        };
        let mut verbatim: Vec<bool> = Vec::new();
        let mut i: usize = 0;
        while i < typings.len()
            invariant
                i <= typings@.len(),
                verbatim@.len() == i,
                forall|j: int| 0 <= j < i ==> verbatim@[j] == takes_verbatim(typings@[j]@),
            decreases typings.len() - i,
        {
            let t = &typings[i];
            let no_none_texts = match &t.map_to_none {
                None => true,
                Some(texts) => texts.len() == 0,
            };
            verbatim.push(t.target_type == ValueType::String && no_none_texts);
            i += 1;
        }
        assert(verbatim@ =~= typing_views(typings@).map_values(
            |t: TypeColumnEntryView| takes_verbatim(t),
        ));
        Ok(Self { settled: true, template, verbatim })
    }

    fn header_row(&self) -> (row: DataCellRow)
        ensures
            row@ == header_row(self@.template),
    {
        let mut row = DataCellRow::with_capacity(self.template.len());
        let mut i: usize = 0;
        while i < self.template.len()
            invariant
                i <= self.template@.len(),
                row@.len() == i,
                forall|j: int| 0 <= j < i ==> row@[j] == header_row(self.template@)[j],
            decreases self.template@.len() - i,
        {
            let name = self.template.0[i].get_name();
            assert(self.template@[i as int] == self.template.0@[i as int]@);
            row.push(DataCell::new(ValueType::String, name.clone(), i, CellData::Text(name.clone())));
            i += 1;
        }
        assert(row@ =~= header_row(self.template@));
        row
    }

    fn fill(&self, clean: &VecDeque<String>) -> (row: DataCellRow)
        requires
            clean@.len() == self@.template.len(),
        ensures
            row@ == filled_row(self@, texts(clean@)),
    {
        proof {
            use_type_invariant(self);
        }
        let mut row = DataCellRow::with_capacity(self.template.len());
        let mut i: usize = 0;
        while i < self.template.len()
            invariant
                i <= self.template@.len(),
                clean@.len() == self.template@.len(),
                self.verbatim@.len() == self.template@.len(),
                row@.len() == i,
                forall|j: int| 0 <= j < i ==> row@[j] == filled_row(self@, texts(clean@))[j],
            decreases self.template@.len() - i,
        {
            assert(self.template@[i as int] == self.template.0@[i as int]@);
            assert(texts(clean@)[i as int] == clean@[i as int]@);
            let data = type_token(clean[i].clone(), self.verbatim[i]);
            row.push(self.template.0[i].with_data(data));
            i += 1;
        }
        assert(row@ =~= filled_row(self@, texts(clean@)));
        row
    }
}

/// Turns the lines of a delimited text into rows of typed cells.
#[derive(Debug)]
pub struct PattiCsvParser {
    pub first_data_line_is_header: bool,
    pub dlt: DelimitedLineTokenizer,
    /// The chains of token transforms by column; `None` where tokens are
    /// taken as they are.
    pub column_transitizers: Option<TransitizerMap>,
    /// The typings of the columns; `None` where every column is text and
    /// the first line says how many there are.
    pub column_typings: Option<Vec<TypeColumnEntry>>,
}

/// What a line makes of a run: the layout after it, and the row or error
/// that it gives.
pub struct Processed {
    pub layout: LayoutView,
    pub outcome: Result<Seq<DataCellView>, PattiCsvErrorView>,
}

/// Whether `r` holds the row, or the error, `expected`.
pub open spec fn is_row_outcome(
    r: Result<DataCellRow, PattiCsvError>,
    expected: Result<Seq<DataCellView>, PattiCsvErrorView>,
) -> bool {
    match expected {
        Ok(row) => r is Ok && r->Ok_0@ == row,
        Err(e) => r is Err && r->Err_0@ == e,
    }
}

impl PattiCsvParser {
    pub fn builder() -> (b: PattiCsvParserBuilder)
        ensures
            b == PattiCsvParserBuilder::initial(),
    {
        PattiCsvParserBuilder::new()
    }

    /// The typings that hold for a run whose first line has `num_tokens`
    /// tokens: the configured ones, else as many text columns as the line
    /// has tokens.
    pub open spec fn effective_typings(&self, num_tokens: nat) -> Seq<TypeColumnEntryView> {
        match self.column_typings {
            Some(typings) => typing_views(typings@),
            None => stringly_typings(num_tokens),
        }
    }

    /// The row for the tokens `tokens` of line `line_num` under `layout`:
    /// the tokens are sanitized, their number is held against the number
    /// of columns, and each cell is given what it holds for its token.
    pub open spec fn data_row(&self, layout: LayoutView, line_num: usize, tokens: Seq<Seq<char>>) -> Result<
        Seq<DataCellView>,
        PattiCsvErrorView,
    > {
        match sanitized_line(chains_view(self.column_transitizers), tokens, line_num) {
            Err(e) => Err(PattiCsvErrorView::Sanitize(e)),
            Ok(clean) => if clean.len() != layout.template.len() {
                Err(
                    PattiCsvErrorView::ConfigError {
                        msg: mismatch_msg(layout.template.len(), clean.len()),
                    },
                )
            } else {
                Ok(filled_row(layout, clean))
            },
        }
    }

    /// Whether `layout` is one that this parser settles: it is not settled
    /// yet, or it has one column for each typing, each with the typing's
    /// type and, where the typing names one, header, and with its place in
    /// the row as its index.
    pub open spec fn suits(&self, layout: LayoutView) -> bool {
        layout.settled ==> {
            &&& layout.verbatim.len() == layout.template.len()
            &&& self.column_typings matches Some(typings) ==> layout.template.len()
                == typings@.len()
            &&& forall|i: int|
                0 <= i < layout.template.len() ==> {
                    let typing = self.effective_typings(layout.template.len())[i];
                    &&& (#[trigger] layout.template[i]).idx == i
                    &&& layout.template[i].dtype == typing.target_type
                    &&& layout.template[i].data == CellDataView::Absent
                    &&& layout.verbatim[i] == takes_verbatim(typing)
                    &&& typing.header matches Some(h) ==> layout.template[i].name == h
                }
        }
    }

    /// What the tokens `tokens` of line `line_num` make of a run that
    /// stands at `layout`. While the layout is not settled, a line settles
    /// it where its number of tokens is the number of typings, and is
    /// refused where it is not; the line that settles the layout is either
    /// the header line, which gives the row of headers, or the first line
    /// of data. Once the layout is settled, every line is a line of data.
    pub open spec fn processed(&self, layout: LayoutView, line_num: usize, tokens: Seq<Seq<char>>) -> Processed {
        if !layout.settled {
            let typings = self.effective_typings(tokens.len());
            if typings.len() != tokens.len() {
                Processed {
                    layout,
                    outcome: Err(
                        PattiCsvErrorView::ConfigError {
                            msg: mismatch_msg(typings.len(), tokens.len()),
                        },
                    ),
                }
            } else if self.first_data_line_is_header {
                let settled = layout_for(Some(tokens), typings);
                Processed { layout: settled, outcome: Ok(header_row(settled.template)) }
            } else {
                let settled = layout_for(None, typings);
                Processed { layout: settled, outcome: self.data_row(settled, line_num, tokens) }
            }
        } else {
            Processed { layout, outcome: self.data_row(layout, line_num, tokens) }
        }
    }

    /// The typing that is configured for column `idx`.
    pub open spec fn typing_at(&self, idx: usize) -> Option<TypeColumnEntryView> {
        match self.column_typings {
            Some(typings) => if idx < typings@.len() {
                Some(typings@[idx as int]@)
            } else {
                None
            },
            None => None,
        }
    }

    /// What is handed to the value system for `cell`: nothing where the
    /// cell holds no token that is still to be parsed; else the token and
    /// the cell's type, with the pattern and the texts for "no value" of
    /// the typing that is configured for the cell's column.
    pub open spec fn request_for(&self, cell: DataCellView) -> Option<ParseRequestView> {
        match cell.data {
            CellDataView::Unparsed(token) => Some(
                ParseRequestView {
                    token,
                    target_type: cell.dtype,
                    chrono_pattern: match self.typing_at(cell.idx) {
                        Some(t) => t.chrono_pattern,
                        None => None,
                    },
                    map_to_none: match self.typing_at(cell.idx) {
                        Some(t) => t.map_to_none,
                        None => None,
                    },
                },
            ),
            _ => None,
        }
    }

    /// What is to be handed to the value system for `cell`, if anything.
    pub fn parse_request<'a>(&'a self, cell: &'a DataCell) -> (r: Option<ParseRequest<'a>>)
        ensures
            match self.request_for(cell@) {
                Some(request) => r is Some && r->Some_0@ == request,
                None => r is None,
            },
    {
        match &cell.data {
            CellData::Unparsed(token) => {
                let typing: Option<&TypeColumnEntry> = match &self.column_typings {
                    Some(typings) => if cell.idx < typings.len() {
                        Some(&typings[cell.idx])
                    } else {
                        None
                    },
                    None => None,
                };
                let (chrono_pattern, map_to_none) = match typing {
                    Some(t) => (t.chrono_pattern.as_ref(), t.map_to_none.as_ref()),
                    None => (None, None),
                };
                Some(ParseRequest { token, target_type: cell.dtype, chrono_pattern, map_to_none })
            },
            _ => None,
        }
    }

    /// Every row has the columns of the settled layout, and the layout has
    /// the columns of the typings: a line leaves a layout that suits the
    /// parser as one that suits it, and where the line gives a row, the
    /// layout is settled and the row has its columns. The row of the header
    /// line holds the headers as texts; the cells of any other row have the
    /// types of their columns.
    pub proof fn lemma_rows_have_the_columns(
        &self,
        layout: LayoutView,
        line_num: usize,
        tokens: Seq<Seq<char>>,
    )
        requires
            self.suits(layout),
            tokens.len() <= usize::MAX,
        ensures
            self.suits(self.processed(layout, line_num, tokens).layout),
            self.processed(layout, line_num, tokens).outcome matches Ok(row) ==> {
                let after = self.processed(layout, line_num, tokens).layout;
                &&& has_columns(row, after)
                &&& self.column_typings matches Some(typings) ==> row.len() == typings@.len()
                &&& if !layout.settled && self.first_data_line_is_header {
                    row == header_row(after.template)
                } else {
                    forall|i: int|
                        0 <= i < row.len() ==> (#[trigger] row[i]).dtype == after.template[i].dtype
                }
            },
    {
        let p = self.processed(layout, line_num, tokens);
        if !layout.settled {
            let typings = self.effective_typings(tokens.len());
            if typings.len() == tokens.len() {
                assert(self.effective_typings(p.layout.template.len()) == typings);
                assert forall|i: int| 0 <= i < p.layout.template.len() implies {
                    let typing = typings[i];
                    &&& (#[trigger] p.layout.template[i]).idx == i
                    &&& p.layout.template[i].dtype == typing.target_type
                    &&& p.layout.template[i].data == CellDataView::Absent
                    &&& p.layout.verbatim[i] == takes_verbatim(typing)
                    &&& typing.header matches Some(h) ==> p.layout.template[i].name == h
                } by {}
            }
        }
    }

    /// While the layout is not settled, a line whose number of tokens is
    /// not the number of configured typings gives the configuration error
    /// that names both numbers, and no row; the layout stays unsettled.
    pub proof fn lemma_first_line_mismatch(
        &self,
        layout: LayoutView,
        line_num: usize,
        tokens: Seq<Seq<char>>,
    )
        requires
            !layout.settled,
            self.column_typings matches Some(typings) && typings@.len() != tokens.len(),
        ensures
            self.processed(layout, line_num, tokens) == (Processed {
                layout,
                outcome: Err(
                    PattiCsvErrorView::ConfigError {
                        msg: mismatch_msg(self.column_typings->Some_0@.len(), tokens.len()),
                    },
                ),
            }),
    {
    }

    /// Once the layout is settled, it stays: a line that is not the first
    /// leaves it as it is, and the row that such a line gives has the
    /// layout's columns, each with the layout's header, type and index.
    pub proof fn lemma_rows_keep_the_layout(
        &self,
        layout: LayoutView,
        line_num: usize,
        tokens: Seq<Seq<char>>,
    )
        requires
            layout.settled,
        ensures
            self.processed(layout, line_num, tokens).layout == layout,
            self.processed(layout, line_num, tokens).outcome matches Ok(row) ==> {
                &&& row.len() == layout.template.len()
                &&& tokens.len() == layout.template.len()
                &&& forall|i: int|
                    0 <= i < row.len() ==> {
                        &&& (#[trigger] row[i]).name == layout.template[i].name
                        &&& row[i].dtype == layout.template[i].dtype
                        &&& row[i].idx == layout.template[i].idx
                    }
            },
    {
        if sanitized_line(chains_view(self.column_transitizers), tokens, line_num) is Ok {
            lemma_sanitized_prefix_ok(
                chains_view(self.column_transitizers),
                tokens,
                line_num,
                tokens.len(),
            );
        }
    }

    /// In every row of data, a cell whose sanitized token is empty holds
    /// no value.
    pub proof fn lemma_empty_token_cell_is_absent(
        &self,
        layout: LayoutView,
        line_num: usize,
        tokens: Seq<Seq<char>>,
        i: int,
    )
        requires
            self.data_row(layout, line_num, tokens) is Ok,
            0 <= i < tokens.len(),
            sanitized_line(chains_view(self.column_transitizers), tokens, line_num)->Ok_0[i].len()
                == 0,
        ensures
            i < self.data_row(layout, line_num, tokens)->Ok_0.len(),
            self.data_row(layout, line_num, tokens)->Ok_0[i].data == CellDataView::Absent,
    {
        lemma_sanitized_prefix_ok(
            chains_view(self.column_transitizers),
            tokens,
            line_num,
            tokens.len(),
        );
    }

    fn mismatch(len_typings: usize, len_data: usize) -> (e: PattiCsvError)
        ensures
            e@ == (PattiCsvErrorView::ConfigError {
                msg: mismatch_msg(len_typings as nat, len_data as nat),
            }),
    {
        let mut msg = String::from_str("Column typings provided, but length ");
        push_decimal(&mut msg, len_typings);
        msg.append(" differs from actual length of data with num columns ");
        push_decimal(&mut msg, len_data);
        PattiCsvError::ConfigError { msg }
    }

    fn settle(&self, tokens: &VecDeque<String>) -> (r: Result<RowLayout, PattiCsvError>)
        ensures
            ({
                let typings = self.effective_typings(tokens@.len());
                if typings.len() != tokens@.len() {
                    r is Err && r->Err_0@ == (PattiCsvErrorView::ConfigError {
                        msg: mismatch_msg(typings.len(), tokens@.len()),
                    })
                } else {
                    r is Ok && r->Ok_0@ == layout_for(
                        if self.first_data_line_is_header {
                            Some(texts(tokens@))
                        } else {
                            None
                        },
                        typings,
                    )
                }
            }),
    {
        let len_data = tokens.len();
        let inferred: Vec<TypeColumnEntry>;
        let typings: &Vec<TypeColumnEntry> = match &self.column_typings {
            Some(typings) => typings,
            None => {
                inferred = stringly_typed(len_data);
                &inferred
            },
        };
        let len_typings = typings.len();
        if len_typings != len_data {
            return Err(Self::mismatch(len_typings, len_data));
        }
        let header_tokens = if self.first_data_line_is_header {
            Some(tokens)
        } else {
            None
        };
        let r = RowLayout::for_typings(header_tokens, typings);
        proof {
            assert forall|idx: int|
                !lacks_header(
                    crate::parser_common::header_texts(header_tokens),
                    typing_views(typings@),
                    idx,
                ) by {}
        }
        r
    }

    fn data_row_of(&self, layout: &RowLayout, line_num: usize, tokens: VecDeque<String>) -> (r:
        Result<DataCellRow, PattiCsvError>)
        ensures
            is_row_outcome(r, self.data_row(layout@, line_num, texts(tokens@))),
    {
        let clean = match sanitize_tokenizer_iter_res(line_num, tokens, &self.column_transitizers) {
            Ok(clean) => clean,
            Err(e) => {
                return Err(e);
            },
        };
        if clean.len() != layout.len() {
            return Err(Self::mismatch(layout.len(), clean.len()));
        }
        Ok(layout.fill(&clean))
    }

    /// Makes the row of one line from its tokens. `line_num` is the line's
    /// number, and `layout` is what the run has established so far, which
    /// the first line with the right number of tokens settles.
    pub fn process_line(&self, layout: &mut RowLayout, line_num: usize, tokens: VecDeque<String>) -> (r:
        Result<DataCellRow, PattiCsvError>)
        ensures
            ({
                let p = self.processed(old(layout)@, line_num, texts(tokens@));
                &&& is_row_outcome(r, p.outcome)
                &&& final(layout)@ == p.layout
            }),
            self.suits(old(layout)@) ==> self.suits(final(layout)@),
            self.suits(old(layout)@) ==> (r matches Ok(row) ==> {
                &&& has_columns(row@, final(layout)@)
                &&& self.column_typings matches Some(typings) ==> row@.len() == typings@.len()
            }),
    {
        let num_tokens: usize = tokens.len();
        proof {
            if self.suits(layout@) {
                assert(texts(tokens@).len() == num_tokens);
                self.lemma_rows_have_the_columns(layout@, line_num, texts(tokens@));
            }
        }
        if !layout.settled {
            match self.settle(&tokens) {
                Ok(settled) => {
                    *layout = settled;
                },
                Err(e) => {
                    return Err(e);
                },
            }
            if self.first_data_line_is_header {
                return Ok(layout.header_row());
            }
        }
        self.data_row_of(layout, line_num, tokens)
    }

    /// The parser's run over the text `data`.
    pub fn parse_iter<'pars>(&'pars self, data: &str) -> (it: PattiCsvParserIterator<'pars>)
        ensures
            it.parser() == *self,
            it.layout()@ == no_layout(),
            it.is_sound(),
            it.tokens().tokenizer() == self.dlt,
            it.tokens().stats()@ == crate::line_tokenizer::no_stats(),
            it.tokens().remaining() == data@,
    {
        PattiCsvParserIterator {
            parser: self,
            dlt_iter: self.dlt.tokenize_iter(data),
            layout: RowLayout::new(),
        }
    }
}

/// Collects the settings of a [`PattiCsvParser`].
#[derive(Debug)]
pub struct PattiCsvParserBuilder {
    pub separator_char: Option<char>,
    pub enclosure_char: Option<char>,
    pub first_data_line_is_header: bool,
    pub skip_take_lines_fns: Option<Vec<LineSkipper>>,
    pub save_skipped_lines: bool,
    pub column_transitizers: Option<TransitizerMap>,
    pub column_typings: Option<Vec<TypeColumnEntry>>,
}

/// The message of the error for typings that are given and empty.
pub open spec fn empty_typings_msg() -> Seq<char> {
    "mandatory 'column typings' are not set! (Empty vec)"@
}

/// The message of the error for a missing separator character.
pub open spec fn no_separator_msg() -> Seq<char> {
    "mandatory 'separator character' is not set! (use the convenience functions '::csv()' or '::tsv()' or set the separator character manually)"@
}

impl PattiCsvParserBuilder {
    /// The settings that a builder starts from: no separator, `"` as the
    /// enclosure character, a header line, and nothing else.
    pub open spec fn initial() -> Self {
        PattiCsvParserBuilder {
            separator_char: None,
            enclosure_char: Some('"'),
            first_data_line_is_header: true,
            skip_take_lines_fns: None,
            save_skipped_lines: false,
            column_transitizers: None,
            column_typings: None,
        }
    }

    pub fn new() -> (b: Self)
        ensures
            b == Self::initial(),
    {
        Self {
            separator_char: None,
            enclosure_char: Some('"'),
            first_data_line_is_header: true,
            save_skipped_lines: false,
            skip_take_lines_fns: None,
            column_transitizers: None,
            column_typings: None,
        }
    }

    /// The settings for comma-separated values: `,` as the separator, `"`
    /// as the enclosure character, and a header line.
    pub fn csv() -> (b: Self)
        ensures
            b == (PattiCsvParserBuilder { separator_char: Some(','), ..Self::initial() }),
    {
        Self {
            separator_char: Some(','),
            enclosure_char: Some('"'),
            first_data_line_is_header: true,
            save_skipped_lines: false,
            skip_take_lines_fns: None,
            column_transitizers: None,
            column_typings: None,
        }
    }

    /// The settings for tab-separated values: the tab as the separator, no
    /// enclosure character, and no header line.
    pub fn tsv() -> (b: Self)
        ensures
            b == (PattiCsvParserBuilder {
                separator_char: Some('\t'),
                enclosure_char: None,
                first_data_line_is_header: false,
                ..Self::initial()
            }),
    {
        Self {
            separator_char: Some('\t'),
            enclosure_char: None,
            first_data_line_is_header: false,
            save_skipped_lines: false,
            skip_take_lines_fns: None,
            column_transitizers: None,
            column_typings: None,
        }
    }

    pub fn separator_char(self, c: char) -> (b: PattiCsvParserBuilder)
        ensures
            b == (PattiCsvParserBuilder { separator_char: Some(c), ..self }),
    {
        let mut b = self;
        b.separator_char = Some(c);
        b
    }

    pub fn enclosure_char(self, c: Option<char>) -> (b: PattiCsvParserBuilder)
        ensures
            b == (PattiCsvParserBuilder { enclosure_char: c, ..self }),
    {
        let mut b = self;
        b.enclosure_char = c;
        b
    }

    pub fn first_data_line_is_header(self, h: bool) -> (b: PattiCsvParserBuilder)
        ensures
            b == (PattiCsvParserBuilder { first_data_line_is_header: h, ..self }),
    {
        let mut b = self;
        b.first_data_line_is_header = h;
        b
    }

    pub fn skip_take_lines_fns(self, s: Vec<LineSkipper>) -> (b: PattiCsvParserBuilder)
        ensures
            b == (PattiCsvParserBuilder { skip_take_lines_fns: Some(s), ..self }),
    {
        let mut b = self;
        b.skip_take_lines_fns = Some(s);
        b
    }

    pub fn save_skipped_lines(self, s: bool) -> (b: PattiCsvParserBuilder)
        ensures
            b == (PattiCsvParserBuilder { save_skipped_lines: s, ..self }),
    {
        let mut b = self;
        b.save_skipped_lines = s;
        b
    }

    pub fn column_transitizers(self, t: TransitizerMap) -> (b: PattiCsvParserBuilder)
        ensures
            b == (PattiCsvParserBuilder { column_transitizers: Some(t), ..self }),
    {
        let mut b = self;
        b.column_transitizers = Some(t);
        b
    }

    pub fn column_typings(self, t: Vec<TypeColumnEntry>) -> (b: PattiCsvParserBuilder)
        ensures
            b == (PattiCsvParserBuilder { column_typings: Some(t), ..self }),
    {
        let mut b = self;
        b.column_typings = Some(t);
        b
    }

    /// Types `num_columns` columns as text.
    pub fn stringly_type_columns(self, num_columns: usize) -> (b: PattiCsvParserBuilder)
        ensures
            b.column_typings is Some,
            typing_views(b.column_typings->Some_0@) == stringly_typings(num_columns as nat),
            b == (PattiCsvParserBuilder { column_typings: b.column_typings, ..self }),
    {
        let mut b = self;
        b.column_typings = Some(stringly_typed(num_columns));
        b
    }

    /// Whether the settings make a parser: there is a separator, and the
    /// typings, where there are any, are not empty.
    pub open spec fn is_complete(&self) -> bool {
        self.separator_char is Some && !(self.column_typings matches Some(t) && t@.len() == 0)
    }

    /// The parser for the settings, or the configuration error that says
    /// what they lack.
    pub fn build(self) -> (r: Result<PattiCsvParser, PattiCsvError>)
        ensures
            match r {
                Ok(parser) => {
                    &&& self.is_complete()
                    &&& parser.first_data_line_is_header == self.first_data_line_is_header
                    &&& parser.column_transitizers == self.column_transitizers
                    &&& parser.column_typings == self.column_typings
                    &&& parser.dlt.delim_char == self.separator_char->Some_0
                    &&& parser.dlt.encl_char == self.enclosure_char
                    &&& parser.dlt.skip_take_lines_fns == self.skip_take_lines_fns
                    &&& parser.dlt.save_skipped_lines == self.save_skipped_lines
                },
                Err(e) => {
                    &&& !self.is_complete()
                    &&& e@ == (PattiCsvErrorView::ConfigError {
                        msg: if self.column_typings matches Some(t) && t@.len() == 0 {
                            empty_typings_msg()
                        } else {
                            no_separator_msg()
                        },
                    })
                },
            },
    {
        let empty_typings = match &self.column_typings {
            Some(t) => t.len() == 0,
            None => false,
        };
        if empty_typings {
            return Err(
                PattiCsvError::ConfigError {
                    msg: String::from_str("mandatory 'column typings' are not set! (Empty vec)"),
                },
            );
        }
        let separator = match self.separator_char {
            Some(c) => c,
            None => {
                return Err(
                    PattiCsvError::ConfigError {
                        msg: String::from_str(
                            "mandatory 'separator character' is not set! (use the convenience functions '::csv()' or '::tsv()' or set the separator character manually)",
                        ),
                    },
                );
            },
        };
        Ok(
            PattiCsvParser {
                first_data_line_is_header: self.first_data_line_is_header,
                column_transitizers: self.column_transitizers,
                column_typings: self.column_typings,
                dlt: DelimitedLineTokenizer::new(
                    separator,
                    self.enclosure_char,
                    self.skip_take_lines_fns,
                    self.save_skipped_lines,
                ),
            },
        )
    }
}

/// A parser's run over a text held in memory: each request gives the row
/// of the next line that the rules let through.
pub struct PattiCsvParserIterator<'pars> {
    parser: &'pars PattiCsvParser,
    dlt_iter: DelimitedLineTokenizerIter<'pars>,
    layout: RowLayout,
}

/// Whether `r` is what a request for a row gives, where the request for
/// the line's tokens gave `yielded` and left the counts `stats`.
pub open spec fn is_row_yield(
    parser: PattiCsvParser,
    layout: LayoutView,
    stats: crate::line_tokenizer::StatsView,
    yielded: Option<Result<Seq<Seq<char>>, TokenizerError>>,
    r: Option<Result<DataCellRow, PattiCsvError>>,
    layout_after: LayoutView,
) -> bool {
    match yielded {
        None => r is None && layout_after == layout,
        Some(Err(e)) => r matches Some(Err(err)) && err@ == PattiCsvErrorView::Tokenize(e)
            && layout_after == layout,
        Some(Ok(tokens)) => {
            let p = parser.processed(layout, stats.curr_line_num, tokens);
            r is Some && is_row_outcome(r->Some_0, p.outcome) && layout_after == p.layout
        },
    }
}

impl<'pars> PattiCsvParserIterator<'pars> {
    /// The parser that runs.
    pub closed spec fn parser(&self) -> PattiCsvParser {
        *self.parser
    }

    /// The run over the lines.
    pub closed spec fn tokens(&self) -> DelimitedLineTokenizerIter<'pars> {
        self.dlt_iter
    }

    /// The layout that the run has established.
    pub closed spec fn layout(&self) -> RowLayout {
        self.layout
    }

    /// Whether the run's layout is one that its parser settles. A run
    /// starts so, and stays so.
    pub open spec fn is_sound(&self) -> bool {
        self.parser().suits(self.layout()@)
    }

    pub fn get_stats(&self) -> (stats: &DelimitedLineTokenizerStats)
        ensures
            *stats == self.tokens().stats(),
    {
        self.dlt_iter.get_stats()
    }

    /// The row of the next line that the rules let through, the error
    /// that the line gives, or `None` where the text has come to its end.
    /// A line that cannot be tokenized gives its error and no row; the
    /// first line that can, and that has as many tokens as there are
    /// typings, settles the layout of all rows. Every row has the columns
    /// of that layout.
    pub fn next(&mut self) -> (r: Option<Result<DataCellRow, PattiCsvError>>)
        ensures
            final(self).parser() == old(self).parser(),
            final(self).tokens().tokenizer() == old(self).tokens().tokenizer(),
            ({
                let a = admitted(
                    old(self).tokens().tokenizer(),
                    old(self).tokens().stats()@,
                    old(self).tokens().remaining(),
                );
                &&& final(self).tokens().stats()@ == a.stats
                &&& final(self).tokens().remaining() == a.rest
                &&& is_row_yield(
                    old(self).parser(),
                    old(self).layout()@,
                    a.stats,
                    a.yielded,
                    r,
                    final(self).layout()@,
                )
            }),
            old(self).is_sound() ==> final(self).is_sound(),
            old(self).is_sound() ==> (r matches Some(Ok(row)) ==> {
                &&& has_columns(row@, final(self).layout()@)
                &&& final(self).parser().column_typings matches Some(typings) ==> row@.len()
                    == typings@.len()
            }),
    {
        let tokens = match self.dlt_iter.next() {
            None => {
                return None;
            },
            Some(Err(e)) => {
                return Some(Err(e));
            },
            Some(Ok(tokens)) => tokens,
        };
        let line_num = self.dlt_iter.get_stats().curr_line_num;
        Some(self.parser.process_line(&mut self.layout, line_num, tokens))
    }
}

} // verus!
