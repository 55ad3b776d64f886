use crate::data::{CellDataView, DataCell, DataCellRow, DataCellView};
use crate::errors::{
    extended_error, PattiCsvError, PattiCsvErrorView, SanitizeError, SanitizeErrorView,
};
use crate::line_tokenizer::texts;
use crate::parser_config::{TransitizerMap, TypeColumnEntry, TypeColumnEntryView, typing_views};
use crate::text::{decimal, push_decimal, usize_to_string};
use crate::transform_sanitize_token::{is_outcome, TransformSanitizeToken, Transitizer};
use std::collections::VecDeque;
use vstd::prelude::*;

verus! {

/// The header of column `idx`: the one that the typing names; else the
/// token of the header line at that position; else, where there was no
/// header line, the column's index as a decimal numeral. `None` where a
/// header line was read and has no token for the column.
pub open spec fn resolved_header(
    header_tokens: Option<Seq<Seq<char>>>,
    typing: TypeColumnEntryView,
    idx: int,
) -> Option<Seq<char>> {
    match typing.header {
        Some(h) => Some(h),
        None => match header_tokens {
            None => Some(decimal(idx as nat)),
            Some(tokens) => if 0 <= idx < tokens.len() {
                Some(tokens[idx])
            } else {
                None
            },
        },
    }
}

/// A header that the typing names wins over the token of the header line.
pub proof fn lemma_configured_header_wins(
    header_tokens: Option<Seq<Seq<char>>>,
    typing: TypeColumnEntryView,
    idx: int,
)
    requires
        typing.header is Some,
    ensures
        resolved_header(header_tokens, typing, idx) == typing.header,
{
}

/// A column that neither the typing nor a header line names is named by
/// its index.
pub proof fn lemma_index_names_column(typing: TypeColumnEntryView, idx: int)
    requires
        typing.header is None,
    ensures
        resolved_header(None, typing, idx) == Some(decimal(idx as nat)),
{
}

/// Whether column `idx` is left without a header.
pub open spec fn lacks_header(
    header_tokens: Option<Seq<Seq<char>>>,
    typings: Seq<TypeColumnEntryView>,
    idx: int,
) -> bool {
    0 <= idx < typings.len() && resolved_header(header_tokens, typings[idx], idx) is None
}

/// The empty cell of column `idx` in the layout.
pub open spec fn template_cell(
    header_tokens: Option<Seq<Seq<char>>>,
    typing: TypeColumnEntryView,
    idx: int,
) -> DataCellView {
    DataCellView {
        dtype: typing.target_type,
        idx: idx as usize,
        name: resolved_header(header_tokens, typing, idx)->Some_0,
        data: CellDataView::Absent,
    }
}

/// The layout of a row: one empty cell for each typing.
pub open spec fn layout_template(
    header_tokens: Option<Seq<Seq<char>>>,
    typings: Seq<TypeColumnEntryView>,
) -> Seq<DataCellView> {
    Seq::new(typings.len(), |i: int| template_cell(header_tokens, typings[i], i))
}

/// The message of the error for a column without a header.
pub open spec fn no_header_msg(idx: int) -> Seq<char> {
    "No header provided for column#"@ + decimal(idx as nat)
}

/// The texts of an optional run of header tokens.
pub open spec fn header_texts(header_tokens: Option<&VecDeque<String>>) -> Option<Seq<Seq<char>>> {
    match header_tokens {
        Some(tokens) => Some(texts(tokens@)),
        None => None,
    }
}

/// Builds the layout that every row of a run is made from: one empty cell for
/// each typing, named by the typing's header, else by the header line's
/// token, else by the column's index. Fails for the first column that a
/// header line leaves without a name.
pub fn build_layout_template(
    header_tokens: Option<&VecDeque<String>>,
    column_typing: &[TypeColumnEntry],
) -> (r: Result<DataCellRow, PattiCsvError>)
    ensures
        match r {
            Ok(row) => row@ == layout_template(
                header_texts(header_tokens),
                typing_views(column_typing@),
            ) && forall|idx: int|
                !lacks_header(header_texts(header_tokens), typing_views(column_typing@), idx),
            Err(e) => exists|idx: int|
                #![trigger no_header_msg(idx)]
                lacks_header(header_texts(header_tokens), typing_views(column_typing@), idx) && (
                forall|j: int|
                    0 <= j < idx ==> !lacks_header(
                        header_texts(header_tokens),
                        typing_views(column_typing@),
                        j,
                    )) && e@ == (PattiCsvErrorView::ConfigError { msg: no_header_msg(idx) }),
        },
{
    let mut row = DataCellRow::new();
    let ghost tokens = header_texts(header_tokens);
    let ghost typings = typing_views(column_typing@);
    let mut idx: usize = 0;
    while idx < column_typing.len()
        invariant
            idx <= column_typing@.len(),
            tokens == header_texts(header_tokens),
            typings == typing_views(column_typing@),
            row@.len() == idx,
            forall|j: int| 0 <= j < idx ==> !lacks_header(tokens, typings, j),
            forall|j: int| 0 <= j < idx ==> row@[j] == template_cell(tokens, typings[j], j),
        decreases column_typing.len() - idx,
    {
        let tce = &column_typing[idx];
        assert(typings[idx as int] == tce@);
        let name: String = match &tce.header {
            Some(h) => h.clone(),
            None => match header_tokens {
                None => usize_to_string(idx),
                Some(header_tokens) => {
                    if idx < header_tokens.len() {
                        assert(texts(header_tokens@)[idx as int] == header_tokens@[idx as int]@);
                        header_tokens[idx].clone()
                    } else {
                        let mut msg = String::from_str("No header provided for column#");
                        push_decimal(&mut msg, idx);
                        assert(lacks_header(tokens, typings, idx as int));
                        assert(msg@ == no_header_msg(idx as int));
                        return Err(PattiCsvError::ConfigError { msg });
                    }
                },
            },
        };
        assert(resolved_header(tokens, typings[idx as int], idx as int) == Some(name@));
        row.push(DataCell::new_without_data(tce.target_type, name, idx));
        idx += 1;
    }
    assert(row@ =~= layout_template(tokens, typings));
    Ok(row)
}

/// The words that introduce the description of a failed transform in an
/// error message.
pub open spec fn failure_label(global: bool) -> Seq<char> {
    if global {
        " Error in/from global sanitizer: "@
    } else {
        " Error in/from local sanitizer: "@
    }
}

/// What the error `e` of the transform `transitizer` becomes on its way
/// out: its message tells where in the chains it was raised, and it knows
/// the line and, for a column's own chain, the column.
pub open spec fn located_error(
    e: SanitizeErrorView,
    transitizer: Transitizer,
    line_num: usize,
    column: Option<usize>,
) -> SanitizeErrorView {
    extended_error(
        e,
        Some(failure_label(column is None) + transitizer.self_info() + "."@),
        Some(line_num),
        column,
    )
}

/// What the transforms of `chain`, applied from the first to the last, make
/// of `token`: the last transform's text, or the located error of the first
/// transform that fails.
pub open spec fn chain_applied(
    chain: Seq<Transitizer>,
    token: Seq<char>,
    line_num: usize,
    column: Option<usize>,
) -> Result<Seq<char>, SanitizeErrorView>
    decreases chain.len(),
{
    if chain.len() == 0 {
        Ok(token)
    } else {
        match chain[0].transitized(token) {
            Ok(t) => chain_applied(chain.drop_first(), t, line_num, column),
            Err(e) => Err(located_error(e, chain[0], line_num, column)),
        }
    }
}

/// A chain is applied in its order: applying two chains one behind the
/// other is applying the first, and the second to what the first gave.
pub proof fn lemma_chain_in_order(
    first: Seq<Transitizer>,
    second: Seq<Transitizer>,
    token: Seq<char>,
    line_num: usize,
    column: Option<usize>,
)
    ensures
        chain_applied(first + second, token, line_num, column) == (match chain_applied(
            first,
            token,
            line_num,
            column,
        ) {
            Ok(t) => chain_applied(second, t, line_num, column),
            Err(e) => Err(e),
        }),
    decreases first.len(),
{
    if first.len() == 0 {
        assert(first + second =~= second);
    } else {
        assert((first + second)[0] == first[0]);
        assert((first + second).drop_first() =~= first.drop_first() + second);
        match first[0].transitized(token) {
            Ok(t) => {
                lemma_chain_in_order(first.drop_first(), second, t, line_num, column);
            },
            Err(_) => {},
        }
    }
}

/// The chain of `key`, empty where the map has none.
pub open spec fn chain_of(
    column_sanitizers: Map<Option<usize>, Seq<Transitizer>>,
    key: Option<usize>,
) -> Seq<Transitizer> {
    if column_sanitizers.contains_key(key) {
        column_sanitizers[key]
    } else {
        Seq::empty()
    }
}

/// What sanitizing makes of the token of column `col_num`: the chain for
/// every column is applied first, the column's own chain to what that gave.
pub open spec fn sanitized(
    column_sanitizers: Map<Option<usize>, Seq<Transitizer>>,
    token: Seq<char>,
    line_num: usize,
    col_num: usize,
) -> Result<Seq<char>, SanitizeErrorView> {
    match chain_applied(chain_of(column_sanitizers, None), token, line_num, None) {
        Ok(t) => chain_applied(
            chain_of(column_sanitizers, Some(col_num)),
            t,
            line_num,
            Some(col_num),
        ),
        Err(e) => Err(e),
    }
}

fn apply_chain(
    chain: &Vec<Transitizer>,
    token: String,
    line_num: usize,
    column: Option<usize>,
) -> (r: Result<String, PattiCsvError>)
    ensures
        is_outcome(r, chain_applied(chain@, token@, line_num, column)),
{
    let mut acc = token;
    let mut i: usize = 0;
    assert(chain@.skip(0) =~= chain@);
    while i < chain.len()
        invariant
            i <= chain@.len(),
            chain_applied(chain@.skip(i as int), acc@, line_num, column) == chain_applied(
                chain@,
                token@,
                line_num,
                column,
            ),
        decreases chain.len() - i,
    {
        let transitizer = &chain[i];
        assert(chain@.skip(i as int)[0] == chain@[i as int]);
        assert(chain@.skip(i as int).drop_first() =~= chain@.skip(i + 1));
        match transitizer.transitize(acc.as_str()) {
            Ok(t) => {
                acc = t;
            },
            Err(PattiCsvError::Sanitize(se)) => {
                let mut msg = if column.is_none() {
                    String::from_str(" Error in/from global sanitizer: ")
                } else {
                    String::from_str(" Error in/from local sanitizer: ")
                };
                let info = transitizer.get_self_info();
                msg.append(info.as_str());
                msg.append(".");
                return Err(
                    PattiCsvError::Sanitize(
                        SanitizeError::extend(se, Some(msg), Some(line_num), column),
                    ),
                );
            },
            Err(_) => {
                // A transform fails with a sanitize error and no other.
                vstd::pervasive::unreached::<()>();
            },
        }
        i += 1;
    }
    Ok(acc)
}

/// Sanitizes the token of column `col_num`: applies the chain for every
/// column, then the column's own chain. `line_num` is only reported in the
/// error.
pub fn sanitize_token(
    token: String,
    column_sanitizers: &TransitizerMap,
    line_num: usize,
    col_num: usize,
) -> (r: Result<String, PattiCsvError>)
    ensures
        is_outcome(r, sanitized(column_sanitizers@, token@, line_num, col_num)),
{
    let token = match column_sanitizers.get(&None) {
        Some(chain) => match apply_chain(chain, token, line_num, None) {
            Ok(t) => t,
            Err(e) => {
                return Err(e);
            },
        },
        None => token,
    };
    match column_sanitizers.get(&Some(col_num)) {
        None => Ok(token),
        Some(chain) => apply_chain(chain, token, line_num, Some(col_num)),
    }
}

/// The chain for every column is applied in full before a column's own
/// chain: where it fails, the column's chain is not looked at; where it
/// gives a text, that text is what the column's chain is applied to.
pub proof fn lemma_global_chain_first(
    column_sanitizers: Map<Option<usize>, Seq<Transitizer>>,
    token: Seq<char>,
    line_num: usize,
    col_num: usize,
)
    ensures
        match chain_applied(chain_of(column_sanitizers, None), token, line_num, None) {
            Ok(t) => sanitized(column_sanitizers, token, line_num, col_num) == chain_applied(
                chain_of(column_sanitizers, Some(col_num)),
                t,
                line_num,
                Some(col_num),
            ),
            Err(e) => sanitized(column_sanitizers, token, line_num, col_num) == Err::<
                Seq<char>,
                SanitizeErrorView,
            >(e),
        },
{
}

/// What sanitizing makes of token `i` of a line.
pub open spec fn sanitized_at(
    column_transitizers: Option<Map<Option<usize>, Seq<Transitizer>>>,
    tokens: Seq<Seq<char>>,
    line_number: usize,
    i: int,
) -> Result<Seq<char>, SanitizeErrorView> {
    match column_transitizers {
        Some(m) => sanitized(m, tokens[i], line_number, i as usize),
        None => Ok(tokens[i]),
    }
}

/// The chains of an optional map.
pub open spec fn chains_view(column_transitizers: Option<TransitizerMap>) -> Option<
    Map<Option<usize>, Seq<Transitizer>>,
> {
    match column_transitizers {
        Some(m) => Some(m@),
        None => None,
    }
}

/// What sanitizing makes of the first `n` tokens of a line: their
/// sanitized texts, or the error of the first of them whose sanitizing
/// fails.
pub open spec fn sanitized_prefix(
    column_transitizers: Option<Map<Option<usize>, Seq<Transitizer>>>,
    tokens: Seq<Seq<char>>,
    line_number: usize,
    n: nat,
) -> Result<Seq<Seq<char>>, SanitizeErrorView>
    decreases n,
{
    if n == 0 {
        Ok(Seq::empty())
    } else {
        match sanitized_prefix(column_transitizers, tokens, line_number, (n - 1) as nat) {
            Ok(done) => match sanitized_at(column_transitizers, tokens, line_number, n - 1) {
                Ok(t) => Ok(done.push(t)),
                Err(e) => Err(e),
            },
            Err(e) => Err(e),
        }
    }
}

/// What sanitizing makes of a line: every token sanitized by the chains of
/// its column, or the error of the first token whose sanitizing fails.
pub open spec fn sanitized_line(
    column_transitizers: Option<Map<Option<usize>, Seq<Transitizer>>>,
    tokens: Seq<Seq<char>>,
    line_number: usize,
) -> Result<Seq<Seq<char>>, SanitizeErrorView> {
    sanitized_prefix(column_transitizers, tokens, line_number, tokens.len())
}

/// A line is sanitized token by token: the result has a text for each
/// token, which is what the token's own sanitizing gives.
pub proof fn lemma_sanitized_prefix_ok(
    column_transitizers: Option<Map<Option<usize>, Seq<Transitizer>>>,
    tokens: Seq<Seq<char>>,
    line_number: usize,
    n: nat,
)
    requires
        n <= tokens.len(),
        sanitized_prefix(column_transitizers, tokens, line_number, n) is Ok,
    ensures
        sanitized_prefix(column_transitizers, tokens, line_number, n)->Ok_0.len() == n,
        forall|i: int|
            0 <= i < n ==> sanitized_at(column_transitizers, tokens, line_number, i) == Ok::<
                Seq<char>,
                SanitizeErrorView,
            >(#[trigger] sanitized_prefix(column_transitizers, tokens, line_number, n)->Ok_0[i]),
    decreases n,
{
    if n > 0 {
        lemma_sanitized_prefix_ok(column_transitizers, tokens, line_number, (n - 1) as nat);
    }
}

/// Once a token's sanitizing has failed, the line's sanitizing fails with
/// that token's error, whatever follows.
pub proof fn lemma_sanitized_prefix_err(
    column_transitizers: Option<Map<Option<usize>, Seq<Transitizer>>>,
    tokens: Seq<Seq<char>>,
    line_number: usize,
    n: nat,
    m: nat,
)
    requires
        n <= m,
        sanitized_prefix(column_transitizers, tokens, line_number, n) is Err,
    ensures
        sanitized_prefix(column_transitizers, tokens, line_number, m) == sanitized_prefix(
            column_transitizers,
            tokens,
            line_number,
            n,
        ),
    decreases m,
{
    if n < m {
        lemma_sanitized_prefix_err(column_transitizers, tokens, line_number, n, (m - 1) as nat);
    }
}

/// Without chains, a line is left as it is.
pub proof fn lemma_sanitized_without_chains(tokens: Seq<Seq<char>>, line_number: usize, n: nat)
    requires
        n <= tokens.len(),
    ensures
        sanitized_prefix(None, tokens, line_number, n) == Ok::<Seq<Seq<char>>, SanitizeErrorView>(
            tokens.take(n as int),
        ),
    decreases n,
{
    if n > 0 {
        lemma_sanitized_without_chains(tokens, line_number, (n - 1) as nat);
        assert(tokens.take(n as int) =~= tokens.take(n - 1).push(tokens[n - 1]));
    } else {
        assert(tokens.take(0) =~= Seq::<Seq<char>>::empty());
    }
}

/// Whether `r` holds the sanitized tokens, or the sanitize error,
/// `expected`.
pub open spec fn is_sanitized_line(
    r: Result<VecDeque<String>, PattiCsvError>,
    expected: Result<Seq<Seq<char>>, SanitizeErrorView>,
) -> bool {
    match expected {
        Ok(tokens) => r is Ok && texts(r->Ok_0@) == tokens,
        Err(e) => r is Err && r->Err_0@ == PattiCsvErrorView::Sanitize(e),
    }
}

/// Sanitizes every token of a line by the chains of its column, and stops
/// at the first token whose sanitizing fails.
pub fn sanitize_tokenizer_iter_res(
    line_number: usize,
    line_tokens: VecDeque<String>,
    column_transitizers: &Option<TransitizerMap>,
) -> (r: Result<VecDeque<String>, PattiCsvError>)
    ensures
        is_sanitized_line(
            r,
            sanitized_line(chains_view(*column_transitizers), texts(line_tokens@), line_number),
        ),
{
    match column_transitizers {
        None => {
            proof {
                lemma_sanitized_without_chains(
                    texts(line_tokens@),
                    line_number,
                    texts(line_tokens@).len(),
                );
                assert(texts(line_tokens@).take(texts(line_tokens@).len() as int) =~= texts(
                    line_tokens@,
                ));
            }
            Ok(line_tokens)
        },
        Some(ct) => {
            let ghost tokens = texts(line_tokens@);
            let ghost chains = Some(ct@);
            let mut ret: VecDeque<String> = VecDeque::with_capacity(line_tokens.len());
            let mut i: usize = 0;
            assert(texts(ret@) =~= Seq::<Seq<char>>::empty());
            while i < line_tokens.len()
                invariant
                    i <= line_tokens@.len(),
                    tokens == texts(line_tokens@),
                    chains == Some(ct@),
                    chains == chains_view(*column_transitizers),
                    sanitized_prefix(chains, tokens, line_number, i as nat) == Ok::<
                        Seq<Seq<char>>,
                        SanitizeErrorView,
                    >(texts(ret@)),
                decreases line_tokens.len() - i,
            {
                let token = line_tokens[i].clone();
                assert(token@ == tokens[i as int]);
                match sanitize_token(token, ct, line_number, i) {
                    Ok(t) => {
                        let ghost before = ret@;
                        ret.push_back(t);
                        assert(texts(ret@) =~= texts(before).push(t@));
                    },
                    Err(e) => {
                        proof {
                            assert(sanitized_prefix(chains, tokens, line_number, (i + 1) as nat)
                                is Err);
                            lemma_sanitized_prefix_err(
                                chains,
                                tokens,
                                line_number,
                                (i + 1) as nat,
                                tokens.len(),
                            );
                        }
                        return Err(e);
                    },
                }
                i += 1;
            }
            Ok(ret)
        },
    }
}

} // verus!
