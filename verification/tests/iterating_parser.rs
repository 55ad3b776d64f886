use patti_csv::data::{CellData, DataCell, DataCellRow};
use patti_csv::errors::{PattiCsvError, TokenizerError};
use patti_csv::iterating_parser::{
    stringly_typed, type_token, typing_failure, PattiCsvParser, PattiCsvParserBuilder, RowLayout,
};
use patti_csv::line_tokenizer::{DelimitedLineTokenizerStats, LineRead, LineStep};
use patti_csv::parser_config::{TransitizerMap, TypeColumnEntry, ValueType};
use patti_csv::skip_take_lines::{LineSkipper, SkipEmptyLines, SkipLinesStartingWith};
use patti_csv::transform_sanitize_token::{RegexTake, ToLowercase, Transitizer, TrimAll};

fn lower_all_trim_first() -> TransitizerMap {
    let mut transitizers = TransitizerMap::new();
    transitizers.insert(None, vec![Transitizer::ToLowercase(ToLowercase)]);
    transitizers.insert(Some(0), vec![Transitizer::TrimAll(TrimAll)]);
    transitizers
}

fn text_cell(idx: usize, name: &str, text: &str) -> DataCell {
    DataCell {
        dtype: ValueType::String,
        idx,
        name: String::from(name),
        data: CellData::Text(String::from(text)),
    }
}

#[test]
fn test_iterating_parser_builder_all_opts() {
    let transitizers = lower_all_trim_first();

    let parser_builder = PattiCsvParserBuilder::new()
        .separator_char(';')
        .enclosure_char(Some('\''))
        .first_data_line_is_header(false)
        .skip_take_lines_fns(vec![LineSkipper::StartingWith(
            SkipLinesStartingWith::new(""),
        )])
        .save_skipped_lines(true)
        .column_typings(vec![
            TypeColumnEntry::new(None, ValueType::Int32),
            TypeColumnEntry::new(None, ValueType::String),
            TypeColumnEntry::new(None, ValueType::Bool),
        ])
        .column_transitizers(transitizers);

    assert_eq!(Some(';'), parser_builder.separator_char);
    assert_eq!(Some('\''), parser_builder.enclosure_char);
    assert_eq!(false, parser_builder.first_data_line_is_header);
    assert_eq!(1, parser_builder.skip_take_lines_fns.unwrap().len());
    assert_eq!(true, parser_builder.save_skipped_lines);
    assert_eq!(3, parser_builder.column_typings.unwrap().len());
    assert_eq!(false, parser_builder.column_transitizers.is_none());
    assert_eq!(2, parser_builder.column_transitizers.unwrap().len());
}

#[test]
fn test_iterating_parser_builder_defaults_csv() {
    let parser_builder = PattiCsvParserBuilder::csv().column_typings(vec![]);

    assert_eq!(Some(','), parser_builder.separator_char);
    assert_eq!(Some('"'), parser_builder.enclosure_char);
    assert_eq!(true, parser_builder.first_data_line_is_header);
    assert!(parser_builder.skip_take_lines_fns.is_none());
    assert_eq!(false, parser_builder.save_skipped_lines);
    assert!(parser_builder.column_transitizers.is_none());
}

#[test]
fn test_iterating_parser_builder_defaults_tsv() {
    let parser_builder = PattiCsvParserBuilder::tsv().column_typings(vec![]);

    assert_eq!(Some('\t'), parser_builder.separator_char);
    assert_eq!(None, parser_builder.enclosure_char);
    assert_eq!(false, parser_builder.first_data_line_is_header);
    assert!(parser_builder.skip_take_lines_fns.is_none());
    assert_eq!(false, parser_builder.save_skipped_lines);
    assert!(parser_builder.column_transitizers.is_none());
}

#[test]
fn builder_without_typings_builds_a_parser_of_text_columns() {
    let parser = PattiCsvParserBuilder::new()
        .separator_char(',')
        .enclosure_char(Some('"'))
        .first_data_line_is_header(true)
        .build()
        .unwrap();
    assert!(parser.column_typings.is_none());
    assert_eq!(parser.dlt.delim_char, ',');
    assert_eq!(parser.dlt.encl_char, Some('"'));
}

#[test]
#[should_panic(
    expected = "ConfigError { msg: \"mandatory 'column typings' are not set! (Empty vec)\" }"
)]
fn patti_csv_parser_from_patti_csv_parser_builder_err_empty_column_typings() {
    PattiCsvParserBuilder::new()
        .separator_char(',')
        .column_typings(vec![])
        .build()
        .unwrap();
}

#[test]
#[should_panic(
    expected = "ConfigError { msg: \"mandatory 'separator character' is not set! (use the convenience functions '::csv()' or '::tsv()' or set the separator character manually)\" }"
)]
fn patti_csv_parser_from_patti_csv_parser_builder_err_no_separator_char() {
    PattiCsvParserBuilder::new()
        .column_typings(vec![TypeColumnEntry::new(None, ValueType::Bool)])
        .build()
        .unwrap();
}

#[test]
fn builder_refuses_empty_typings() {
    let err = PattiCsvParserBuilder::new()
        .separator_char(',')
        .column_typings(vec![])
        .build()
        .unwrap_err();
    assert_eq!(
        err,
        PattiCsvError::ConfigError {
            msg: "mandatory 'column typings' are not set! (Empty vec)".into()
        }
    );
}

#[test]
fn builder_refuses_a_missing_separator() {
    let err = PattiCsvParserBuilder::new()
        .column_typings(vec![TypeColumnEntry::new(None, ValueType::Bool)])
        .build()
        .unwrap_err();
    assert_eq!(
        err,
        PattiCsvError::ConfigError {
            msg: "mandatory 'separator character' is not set! (use the convenience functions '::csv()' or '::tsv()' or set the separator character manually)".into()
        }
    );
    // empty typings are reported first
    let err = PattiCsvParserBuilder::new()
        .column_typings(vec![])
        .build()
        .unwrap_err();
    assert_eq!(
        err,
        PattiCsvError::ConfigError {
            msg: "mandatory 'column typings' are not set! (Empty vec)".into()
        }
    );
}

#[test]
fn parse_with_custom_parser() {
    let data = "c1;c2;c3;c4;c5\n 1 ;'BaR';true;null;";

    let parser = PattiCsvParserBuilder::new()
        .separator_char(';')
        .enclosure_char(Some('\''))
        .first_data_line_is_header(true)
        .column_typings(vec![
            TypeColumnEntry::new(None, ValueType::Int32),
            TypeColumnEntry::new(Some(String::from("col2")), ValueType::String),
            TypeColumnEntry::new(Some(String::from("col3")), ValueType::Bool),
            TypeColumnEntry::new_with_map_to_none(
                Some(String::from("col4")),
                ValueType::String,
                vec![String::from("null")],
            ),
            TypeColumnEntry::new(None, ValueType::Int32), // an empty token is no value
        ])
        .column_transitizers(lower_all_trim_first())
        .build()
        .unwrap();

    let mut iter = parser.parse_iter(data);
    let headers = iter.next().unwrap().unwrap();
    let line_1 = iter.next().unwrap().unwrap();

    assert_eq!(
        DataCellRow(vec![
            text_cell(0, "c1", "c1"),
            text_cell(1, "col2", "col2"),
            text_cell(2, "col3", "col3"),
            text_cell(3, "col4", "col4"),
            text_cell(4, "c5", "c5"),
        ]),
        headers
    );

    assert_eq!(
        DataCellRow(vec![
            DataCell {
                dtype: ValueType::Int32,
                idx: 0,
                name: String::from("c1"),
                data: CellData::Unparsed(String::from("1"))
            },
            DataCell {
                dtype: ValueType::String,
                idx: 1,
                name: String::from("col2"),
                data: CellData::Text(String::from("bar"))
            },
            DataCell {
                dtype: ValueType::Bool,
                idx: 2,
                name: String::from("col3"),
                data: CellData::Unparsed(String::from("true"))
            },
            DataCell {
                dtype: ValueType::String,
                idx: 3,
                name: String::from("col4"),
                data: CellData::Unparsed(String::from("null"))
            },
            DataCell {
                dtype: ValueType::Int32,
                idx: 4,
                name: String::from("c5"),
                data: CellData::Absent
            },
        ]),
        line_1
    )
}

#[test]
fn parse_with_csv_parser_stringly_typed() {
    let data = "c1,c2,c3,c4,c5\n 1 ,\"BaR\",true,null,";

    let parser = PattiCsvParserBuilder::csv()
        .first_data_line_is_header(true)
        .stringly_type_columns(5)
        .column_transitizers(lower_all_trim_first())
        .build()
        .unwrap();

    let mut iter = parser.parse_iter(data);
    let headers = iter.next().unwrap().unwrap();
    let line_1 = iter.next().unwrap().unwrap();

    assert_eq!(
        DataCellRow(vec![
            text_cell(0, "c1", "c1"),
            text_cell(1, "c2", "c2"),
            text_cell(2, "c3", "c3"),
            text_cell(3, "c4", "c4"),
            text_cell(4, "c5", "c5"),
        ]),
        headers
    );

    assert_eq!(
        DataCellRow(vec![
            text_cell(0, "c1", "1"),
            text_cell(1, "c2", "bar"),
            text_cell(2, "c3", "true"),
            text_cell(3, "c4", "null"), // texts like "null" are not mapped by themselves
            DataCell {
                dtype: ValueType::String,
                idx: 4,
                name: String::from("c5"),
                data: CellData::Absent
            },
        ]),
        line_1
    )
}

fn cell_text(cell: &DataCell) -> String {
    match cell.get_data() {
        CellData::Absent => String::new(),
        CellData::Text(t) => t.clone(),
        CellData::Unparsed(t) => t.clone(),
    }
}

fn comments_and_summation() -> &'static str {
    "# shitty comment line!\n# shitty comment line 2\nc1,c2,c3,c4\n 1 ,\"BaR\",true,\na, shitty, summation, line"
}

#[test]
fn test_parser_skip_comments_and_summation_lines() {
    let parser = PattiCsvParserBuilder::csv()
        .first_data_line_is_header(true)
        .stringly_type_columns(4)
        .skip_take_lines_fns(vec![
            LineSkipper::StartingWith(SkipLinesStartingWith::new("#")),
            LineSkipper::StartingWith(SkipLinesStartingWith::new("a, shitty")),
        ])
        .column_transitizers(lower_all_trim_first())
        .build()
        .unwrap();

    let mut iter = parser.parse_iter(comments_and_summation());
    let headers = iter.next().unwrap().unwrap();
    let line_1 = iter.next().unwrap().unwrap();

    let header_string = headers.0.iter().map(cell_text).collect::<Vec<_>>().join(",");
    let line_1_string = line_1.0.iter().map(cell_text).collect::<Vec<_>>().join(",");

    assert_eq!(String::from("c1,c2,c3,c4"), header_string);
    assert_eq!(String::from("1,bar,true,"), line_1_string);
    assert!(iter.next().is_none());
}

#[test]
fn test_parser_skip_comments_and_summation_lines_save_skipped() {
    let parser = PattiCsvParserBuilder::csv()
        .first_data_line_is_header(true)
        .stringly_type_columns(4)
        .skip_take_lines_fns(vec![
            LineSkipper::StartingWith(SkipLinesStartingWith::new("#")),
            LineSkipper::StartingWith(SkipLinesStartingWith::new("a, shitty")),
        ])
        .save_skipped_lines(true)
        .column_transitizers(lower_all_trim_first())
        .build()
        .unwrap();

    let mut iter = parser.parse_iter(comments_and_summation());

    while let Some(_) = iter.next() {}

    assert_eq!(2, *&iter.get_stats().num_lines_tokenized);
    assert_eq!(3, *&iter.get_stats().skipped_lines.len());
    assert_eq!(
        iter.get_stats().skipped_lines,
        vec![
            (1, Some("# shitty comment line!\n".to_string())),
            (2, Some("# shitty comment line 2\n".to_string())),
            (5, Some("a, shitty, summation, line".to_string())),
        ]
    );
    // two of the five lines were not dropped; the read that found the end counts as a line number
    assert_eq!(iter.get_stats().num_lines_read, 2);
    assert_eq!(iter.get_stats().curr_line_num, 6);
    assert_eq!(
        iter.get_stats().bytes_read,
        comments_and_summation().len()
    );
}

#[test]
fn skipped_lines_are_counted_without_their_text_by_default() {
    let parser = PattiCsvParserBuilder::csv()
        .skip_take_lines_fns(vec![LineSkipper::Empty(SkipEmptyLines::new())])
        .build()
        .unwrap();
    let mut iter = parser.parse_iter("\r\na\n\nb");
    assert!(iter.next().unwrap().is_ok());
    assert!(iter.next().unwrap().is_ok());
    assert!(iter.next().is_none());
    assert_eq!(iter.get_stats().skipped_lines, vec![(1, None), (3, None)]);
    assert_eq!(iter.get_stats().num_lines_tokenized, 2);
}

#[test]
fn end_to_end_header_then_text_rows() {
    let parser = PattiCsvParserBuilder::new()
        .separator_char(',')
        .enclosure_char(None)
        .first_data_line_is_header(true)
        .build()
        .unwrap();
    let mut iter = parser.parse_iter("a,b,c\n1,2,3");
    assert_eq!(
        iter.next(),
        Some(Ok(DataCellRow(vec![
            text_cell(0, "a", "a"),
            text_cell(1, "b", "b"),
            text_cell(2, "c", "c"),
        ])))
    );
    assert_eq!(
        iter.next(),
        Some(Ok(DataCellRow(vec![
            text_cell(0, "a", "1"),
            text_cell(1, "b", "2"),
            text_cell(2, "c", "3"),
        ])))
    );
    assert_eq!(iter.next(), None);
    assert_eq!(iter.next(), None);
}

#[test]
fn headerless_rows_are_named_by_index() {
    let parser = PattiCsvParserBuilder::tsv().build().unwrap();
    let mut iter = parser.parse_iter("x\ty\n\tz\n");
    assert_eq!(
        iter.next(),
        Some(Ok(DataCellRow(vec![
            text_cell(0, "0", "x"),
            text_cell(1, "1", "y"),
        ])))
    );
    assert_eq!(
        iter.next(),
        Some(Ok(DataCellRow(vec![
            DataCell::new(ValueType::String, "0".into(), 0, CellData::Absent),
            text_cell(1, "1", "z"),
        ])))
    );
    assert_eq!(iter.next(), None);
}

#[test]
fn column_count_mismatch_on_the_first_line() {
    let parser = PattiCsvParserBuilder::csv()
        .column_typings(vec![
            TypeColumnEntry::new(None, ValueType::Int32),
            TypeColumnEntry::new(None, ValueType::String),
            TypeColumnEntry::new(None, ValueType::Bool),
        ])
        .build()
        .unwrap();
    let mut iter = parser.parse_iter("a,b,c,d\n1,2,3,4\n");
    assert_eq!(
        iter.next(),
        Some(Err(PattiCsvError::ConfigError {
            msg: "Column typings provided, but length 3 differs from actual length of data with num columns 4".into()
        }))
    );
    // no layout was settled: the next line is held against the typings too
    assert_eq!(
        iter.next(),
        Some(Err(PattiCsvError::ConfigError {
            msg: "Column typings provided, but length 3 differs from actual length of data with num columns 4".into()
        }))
    );
    assert_eq!(iter.next(), None);
}

#[test]
fn no_row_before_a_line_fits_the_typings() {
    let parser = PattiCsvParserBuilder::csv()
        .column_typings(vec![
            TypeColumnEntry::new(None, ValueType::Int32),
            TypeColumnEntry::new(None, ValueType::String),
            TypeColumnEntry::new(None, ValueType::Bool),
        ])
        .build()
        .unwrap();
    let mut iter = parser.parse_iter("a,b,c,d\n\nx,y,z\n1,2,3\n1,2\n");
    assert_eq!(
        iter.next(),
        Some(Err(PattiCsvError::ConfigError {
            msg: "Column typings provided, but length 3 differs from actual length of data with num columns 4".into()
        }))
    );
    // a blank line has no tokens: it gives no row either
    assert_eq!(
        iter.next(),
        Some(Err(PattiCsvError::ConfigError {
            msg: "Column typings provided, but length 3 differs from actual length of data with num columns 0".into()
        }))
    );
    // the first line that fits is the header line
    assert_eq!(
        iter.next(),
        Some(Ok(DataCellRow(vec![
            text_cell(0, "x", "x"),
            text_cell(1, "y", "y"),
            text_cell(2, "z", "z"),
        ])))
    );
    let row = iter.next().unwrap().unwrap();
    assert_eq!(row.len(), 3);
    assert_eq!(row.0[0].data, CellData::Unparsed("1".into()));
    assert_eq!(row.0[2].dtype, ValueType::Bool);
    assert_eq!(
        iter.next(),
        Some(Err(PattiCsvError::ConfigError {
            msg: "Column typings provided, but length 3 differs from actual length of data with num columns 2".into()
        }))
    );
    assert_eq!(iter.next(), None);
}

#[test]
fn a_later_line_with_another_number_of_tokens_is_an_error() {
    let parser = PattiCsvParserBuilder::csv().build().unwrap();
    let mut iter = parser.parse_iter("a,b\n1\n1,2,3\n1,2\n");
    assert!(iter.next().unwrap().is_ok());
    assert_eq!(
        iter.next(),
        Some(Err(PattiCsvError::ConfigError {
            msg: "Column typings provided, but length 2 differs from actual length of data with num columns 1".into()
        }))
    );
    assert_eq!(
        iter.next(),
        Some(Err(PattiCsvError::ConfigError {
            msg: "Column typings provided, but length 2 differs from actual length of data with num columns 3".into()
        }))
    );
    assert_eq!(
        iter.next(),
        Some(Ok(DataCellRow(vec![
            text_cell(0, "a", "1"),
            text_cell(1, "b", "2"),
        ])))
    );
}

#[test]
fn a_line_that_cannot_be_tokenized_gives_its_error_and_no_row() {
    let parser = PattiCsvParserBuilder::csv().build().unwrap();
    let mut iter = parser.parse_iter("f\"oo,bar\na,b\n1,\"2\n");
    assert_eq!(
        iter.next(),
        Some(Err(PattiCsvError::Tokenize(
            TokenizerError::IllegalEnclChar {
                line: 1,
                token_num: 1
            }
        )))
    );
    // the first line that can be tokenized is the header line
    assert_eq!(
        iter.next(),
        Some(Ok(DataCellRow(vec![
            text_cell(0, "a", "a"),
            text_cell(1, "b", "b"),
        ])))
    );
    assert_eq!(
        iter.next(),
        Some(Err(PattiCsvError::Tokenize(
            TokenizerError::UnescapedEnclChar {
                line: 3,
                token_num: 2
            }
        )))
    );
    assert_eq!(iter.next(), None);
}

#[test]
fn a_sanitize_error_is_the_rows_error() {
    let mut transitizers = TransitizerMap::new();
    transitizers.insert(
        Some(1),
        vec![Transitizer::RegexTake(RegexTake::new("(\\d+)").unwrap())],
    );
    let parser = PattiCsvParserBuilder::csv()
        .first_data_line_is_header(false)
        .column_transitizers(transitizers)
        .build()
        .unwrap();
    let mut iter = parser.parse_iter("a,1 EUR\nb,none\n");
    assert_eq!(
        iter.next(),
        Some(Ok(DataCellRow(vec![
            text_cell(0, "0", "a"),
            text_cell(1, "1", "1"),
        ])))
    );
    match iter.next() {
        Some(Err(PattiCsvError::Sanitize(se))) => {
            assert_eq!(se.line, Some(2));
            assert_eq!(se.column, Some(1));
            assert_eq!(se.from_token, "none");
        }
        other => panic!("{:?}", other),
    }
}

#[test]
fn an_empty_token_is_absent_whatever_the_typing() {
    assert_eq!(type_token(String::new(), true), CellData::Absent);
    assert_eq!(type_token(String::new(), false), CellData::Absent);
    assert_eq!(type_token("x".into(), true), CellData::Text("x".into()));
    assert_eq!(
        type_token("x".into(), false),
        CellData::Unparsed("x".into())
    );

    let parser = PattiCsvParserBuilder::csv()
        .first_data_line_is_header(false)
        .column_typings(vec![
            TypeColumnEntry::new_with_chrono_pattern(None, ValueType::NaiveDate, "%d.%m.%Y"),
            TypeColumnEntry::new_with_map_to_none(None, ValueType::Int64, vec!["".into()]),
            TypeColumnEntry::new_with_chrono_pattern_with_map_to_none(
                None,
                ValueType::DateTime,
                "%F",
                vec!["n/a".into()],
            ),
            TypeColumnEntry::new_with_map_to_none(None, ValueType::String, vec![]),
        ])
        .build()
        .unwrap();
    let mut iter = parser.parse_iter(",,,\n1.1.2000,7,n/a,x");
    let row = iter.next().unwrap().unwrap();
    assert!(row.0.iter().all(|c| c.data == CellData::Absent));
    let row = iter.next().unwrap().unwrap();
    assert_eq!(row.0[0].data, CellData::Unparsed("1.1.2000".into()));
    assert_eq!(row.0[1].data, CellData::Unparsed("7".into()));
    assert_eq!(row.0[2].data, CellData::Unparsed("n/a".into()));
    // an empty list of texts for "no value" asks for nothing
    assert_eq!(row.0[3].data, CellData::Text("x".into()));
    assert_eq!(row.get_by_name("2").unwrap().idx, 2);
    assert!(row.get_by_name("4").is_none());
}

#[test]
fn typing_failure_names_line_column_and_header() {
    assert_eq!(
        typing_failure("ParseError(\"abc\")", 12, 0, "amount"),
        PattiCsvError::Generic {
            msg: "ParseError(\"abc\"); line: 12; column: 0; header: amount".into()
        }
    );
}

#[test]
fn lines_can_be_fed_one_by_one() {
    let parser = PattiCsvParserBuilder::csv()
        .skip_take_lines_fns(vec![LineSkipper::StartingWith(
            SkipLinesStartingWith::new("#"),
        )])
        .save_skipped_lines(true)
        .build()
        .unwrap();
    let mut stats = DelimitedLineTokenizerStats::new();
    let mut layout = RowLayout::new();

    let step = parser.dlt.advance(
        &mut stats,
        LineRead::Line {
            text: "# note\n".into(),
            num_bytes: 7,
        },
    );
    assert!(matches!(step, LineStep::Skipped));
    assert_eq!(stats.skipped_lines, vec![(1, Some("# note\n".to_string()))]);
    assert_eq!(stats.num_lines_read, 0);

    let step = parser.dlt.advance(
        &mut stats,
        LineRead::Failed {
            reason: "broken pipe".into(),
        },
    );
    match step {
        LineStep::Yielded(Err(e)) => assert_eq!(
            e,
            PattiCsvError::Generic {
                msg: "error reading line 2. broken pipe".into()
            }
        ),
        other => panic!("{:?}", other),
    }
    assert_eq!(stats.num_lines_read, 0);

    let step = parser.dlt.advance(
        &mut stats,
        LineRead::Line {
            text: "a,b\r\n".into(),
            num_bytes: 5,
        },
    );
    let tokens = match step {
        LineStep::Yielded(Ok(tokens)) => tokens,
        other => panic!("{:?}", other),
    };
    assert_eq!(tokens, vec!["a", "b"]);
    assert!(stats.is_at_first_unskipped_line_to_parse());
    assert!(!layout.is_settled());
    let row = parser
        .process_line(&mut layout, stats.curr_line_num, tokens)
        .unwrap();
    assert!(layout.is_settled());
    assert_eq!(
        row,
        DataCellRow(vec![text_cell(0, "a", "a"), text_cell(1, "b", "b")])
    );
    assert_eq!(layout.len(), 2);
    assert_eq!(layout.get_template().0[1].name, "b");

    let step = parser.dlt.advance(&mut stats, LineRead::End);
    assert!(matches!(step, LineStep::Finished));
    assert_eq!(stats.curr_line_num, 4);
    assert_eq!(stats.num_lines_read, 1);
    assert_eq!(stats.num_lines_tokenized, 1);
    assert_eq!(stats.bytes_read, 12);
}

#[test]
fn counters_stay_at_the_largest_number() {
    let parser = PattiCsvParserBuilder::csv().build().unwrap();
    let mut stats = DelimitedLineTokenizerStats {
        curr_line_num: usize::MAX,
        num_lines_read: usize::MAX - 1,
        num_lines_tokenized: usize::MAX,
        skipped_lines: vec![],
        bytes_read: usize::MAX - 2,
    };
    let step = parser.dlt.advance(
        &mut stats,
        LineRead::Line {
            text: "a,b".into(),
            num_bytes: 3,
        },
    );
    assert!(matches!(step, LineStep::Yielded(Ok(_))));
    assert_eq!(stats.curr_line_num, usize::MAX);
    assert_eq!(stats.num_lines_read, usize::MAX);
    assert_eq!(stats.num_lines_tokenized, usize::MAX);
    assert_eq!(stats.bytes_read, usize::MAX);
}

#[test]
fn stringly_typed_columns() {
    let typings = stringly_typed(3);
    assert_eq!(typings.len(), 3);
    assert!(typings
        .iter()
        .all(|t| *t == TypeColumnEntry::new(None, ValueType::String)));
    assert!(stringly_typed(0).is_empty());
    let parser: PattiCsvParser = PattiCsvParser::builder()
        .separator_char('|')
        .stringly_type_columns(2)
        .build()
        .unwrap();
    assert_eq!(parser.column_typings.unwrap().len(), 2);
}

#[test]
fn parse_requests_carry_the_columns_typing() {
    let parser = PattiCsvParserBuilder::csv()
        .first_data_line_is_header(false)
        .column_typings(vec![
            TypeColumnEntry::new_with_chrono_pattern_with_map_to_none(
                None,
                ValueType::NaiveDate,
                "%d.%m.%Y",
                vec!["-".into(), "n/a".into()],
            ),
            TypeColumnEntry::new(None, ValueType::String),
            TypeColumnEntry::new(None, ValueType::Int8),
        ])
        .build()
        .unwrap();
    let row = parser
        .parse_iter("1.2.2003,x,\n")
        .next()
        .unwrap()
        .unwrap();
    let request = parser.parse_request(&row.0[0]).unwrap();
    assert_eq!(request.token, "1.2.2003");
    assert_eq!(request.target_type, ValueType::NaiveDate);
    assert_eq!(request.chrono_pattern.unwrap(), "%d.%m.%Y");
    assert_eq!(request.map_to_none.unwrap(), &vec!["-", "n/a"]);
    assert!(parser.parse_request(&row.0[1]).is_none());
    assert!(parser.parse_request(&row.0[2]).is_none());

    // a cell of a column that no typing is configured for
    let stray = DataCell::new(
        ValueType::Bool,
        "b".into(),
        7,
        CellData::Unparsed("yes".into()),
    );
    let request = parser.parse_request(&stray).unwrap();
    assert_eq!(request.token, "yes");
    assert_eq!(request.target_type, ValueType::Bool);
    assert!(request.chrono_pattern.is_none());
    assert!(request.map_to_none.is_none());
}
