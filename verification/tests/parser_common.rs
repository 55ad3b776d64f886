use std::collections::VecDeque;

use patti_csv::data::{CellData, DataCell, DataCellRow};
use patti_csv::errors::{PattiCsvError, SanitizeError};
use patti_csv::parser_common::{build_layout_template, sanitize_token, sanitize_tokenizer_iter_res};
use patti_csv::parser_config::{TransitizerMap, TypeColumnEntry, ValueType};
use patti_csv::transform_sanitize_token::{
    RegexTake, ReplaceWith, ToUppercase, Transitizer, TrimAll, TrimTrailing,
};

// Supply both, header tokens and info via typings. Typings must get precedence.
#[test]
fn parser_common_test_build_layout_template_w_typings_precedence() {
    let header_tokens: &VecDeque<String> =
        &VecDeque::from(vec![String::from("header1-from-header-tokens")]); // second prio for header name
    let column_typing: &Vec<TypeColumnEntry> = &vec![TypeColumnEntry::new(
        Some(String::from("header1-from-column-typings")), // first prio for header name (used here!)
        ValueType::String,
    )];
    let res = build_layout_template(Some(header_tokens), column_typing).unwrap();

    let mut exp = DataCellRow::new();
    exp.push(DataCell::new(
        ValueType::String,
        "header1-from-column-typings".into(),
        0,
        CellData::Absent,
    ));

    assert_eq!(exp, res);
}

// Supply info via header line only.
#[test]
fn parser_common_test_build_layout_template_w_header_from_header_tokens() {
    let header_tokens: &VecDeque<String> =
        &VecDeque::from(vec![String::from("header1-from-header-tokens")]); // second prio for header name (used here!)
    let column_typing: &Vec<TypeColumnEntry> = &vec![TypeColumnEntry::new(
        None, // first prio for header name
        ValueType::String,
    )];
    let res = build_layout_template(Some(header_tokens), column_typing).unwrap();

    let mut exp = DataCellRow::new();
    exp.push(DataCell::new(
        ValueType::String,
        "header1-from-header-tokens".into(),
        0,
        CellData::Absent,
    ));

    assert_eq!(exp, res);
}

#[test]
fn parser_common_test_build_layout_template_w_header_from_typings() {
    let column_typing: &Vec<TypeColumnEntry> = &vec![TypeColumnEntry::new(
        Some(String::from("header1-from-column-typings")), // first prio for header name (used here!)
        ValueType::String,
    )];
    let res = build_layout_template(None, column_typing).unwrap();

    let mut exp = DataCellRow::new();
    exp.push(DataCell::new(
        ValueType::String,
        "header1-from-column-typings".into(),
        0,
        CellData::Absent,
    ));

    assert_eq!(exp, res);
}

#[test]
#[should_panic(expected = "No header provided for column#0")]
fn parser_common_test_build_layout_template_w_header_err_no_header_info() {
    let header_tokens: &VecDeque<String> = &VecDeque::new(); // second prio for header name
    let column_typing: &Vec<TypeColumnEntry> = &vec![TypeColumnEntry::new(
        None, // first prio for header name
        ValueType::String,
    )];
    build_layout_template(Some(header_tokens), column_typing).unwrap();
    // errors
}

// Neither header tokens, nor headers via typings are supplied. Fallback to indices.
#[test]
fn parser_common_test_build_layout_template_no_info_fallback_to_index() {
    let column_typing: &Vec<TypeColumnEntry> = &vec![TypeColumnEntry::new(
        None, // first prio for header name
        ValueType::String,
    )];
    let res = build_layout_template(None, column_typing).unwrap();

    let mut exp = DataCellRow::new();
    exp.push(DataCell::new(
        ValueType::String,
        "0".into(),
        0,
        CellData::Absent,
    )); // fallback to index as header "name" (used here!)

    assert_eq!(exp, res);
}

#[test]
fn test_sanitize_token_global() {
    let mut san_hm = TransitizerMap::new();
    san_hm.insert(
        None,
        vec![
            Transitizer::TrimTrailing(TrimTrailing),
            Transitizer::ReplaceWith(ReplaceWith {
                from: String::from("o"),
                to: String::from("u"),
            }),
            Transitizer::ToUppercase(ToUppercase),
        ],
    );

    let res = sanitize_token(String::from("foobar   "), &san_hm, 112, 3).unwrap();
    assert_eq!(String::from("FUUBAR"), res);
}

#[test]
fn test_sanitize_token_local() {
    let mut san_hm = TransitizerMap::new();
    san_hm.insert(
        Some(0),
        vec![Transitizer::RegexTake(
            RegexTake::new("(\\d+\\.\\d+).*").unwrap(),
        )],
    );

    let res = sanitize_token(String::from("10.00 (CHF)"), &san_hm, 112, 0).unwrap();
    assert_eq!(String::from("10.00"), res);
}

#[test]
#[should_panic(
    expected = "Sanitize(SanitizeError { msg: \"No captures, but we need exactly one. Error in/from global sanitizer: RegexTake { regex: "
)]
fn test_sanitize_token_global_err() {
    let mut san_hm = TransitizerMap::new();
    san_hm.insert(
        None,
        vec![Transitizer::RegexTake(
            RegexTake::new("(\\d+\\.\\d+).*").unwrap(),
        )],
    );

    sanitize_token(String::from("10 (CHF)"), &san_hm, 112, 3).unwrap();
}

#[test]
#[should_panic(
    expected = "Sanitize(SanitizeError { msg: \"No captures, but we need exactly one. Error in/from local sanitizer: RegexTake { regex: "
)]
fn test_sanitize_token_local_err() {
    let mut san_hm = TransitizerMap::new();
    san_hm.insert(
        Some(0),
        vec![Transitizer::RegexTake(
            RegexTake::new("(\\d+\\.\\d+).*").unwrap(),
        )],
    );

    sanitize_token(String::from("10 (CHF)"), &san_hm, 112, 0).unwrap();
}

fn take_digits() -> Transitizer {
    Transitizer::RegexTake(RegexTake::new("(\\d+\\.\\d+).*").unwrap())
}

#[test]
fn global_chain_runs_before_the_columns_own_chain() {
    let mut san_hm = TransitizerMap::new();
    san_hm.insert(
        None,
        vec![
            Transitizer::TrimTrailing(TrimTrailing),
            Transitizer::ReplaceWith(ReplaceWith::new("o", "u")),
            Transitizer::ToUppercase(ToUppercase),
        ],
    );
    san_hm.insert(
        Some(1),
        vec![Transitizer::RegexTake(RegexTake::new("^(FUU).*$").unwrap())],
    );

    // column 1 has a chain of its own: it sees what the global chain made
    assert_eq!(
        Ok(String::from("FUU")),
        sanitize_token(String::from("foobar   "), &san_hm, 1, 1)
    );
    // column 0 has none
    assert_eq!(
        Ok(String::from("FUUBAR")),
        sanitize_token(String::from("foobar   "), &san_hm, 1, 0)
    );
    // had the column's chain run first, it would have found nothing to take
    assert!(RegexTake::new("^(FUU).*$")
        .map(Transitizer::RegexTake)
        .is_ok());
    let mut local_only = TransitizerMap::new();
    local_only.insert(
        Some(1),
        vec![Transitizer::RegexTake(RegexTake::new("^(FUU).*$").unwrap())],
    );
    assert!(sanitize_token(String::from("foobar   "), &local_only, 1, 1).is_err());
}

#[test]
fn sanitize_errors_say_where_they_were_raised() {
    let mut san_hm = TransitizerMap::new();
    san_hm.insert(None, vec![take_digits()]);
    let err = sanitize_token(String::from("10 (CHF)"), &san_hm, 112, 3).unwrap_err();
    let info = format!("{:?}", RegexTake::new("(\\d+\\.\\d+).*").unwrap());
    let expected = SanitizeError::extend(
        SanitizeError::minim(
            "No captures, but we need exactly one.".into(),
            "10 (CHF)".into(),
        ),
        Some(format!(" Error in/from global sanitizer: {}.", info)),
        Some(112),
        None,
    );
    assert_eq!(err, PattiCsvError::Sanitize(expected));

    let mut local = TransitizerMap::new();
    local.insert(Some(3), vec![Transitizer::TrimAll(TrimAll), take_digits()]);
    let err = sanitize_token(String::from("10 (CHF) "), &local, 7, 3).unwrap_err();
    let expected = SanitizeError {
        msg: format!(
            "No captures, but we need exactly one. Error in/from local sanitizer: {}.",
            info
        ),
        line: Some(7),
        column: Some(3),
        from_token: "10 (CHF)".into(),
    };
    assert_eq!(err, PattiCsvError::Sanitize(expected));
}

#[test]
fn a_line_is_sanitized_token_by_token() {
    let mut san_hm = TransitizerMap::new();
    san_hm.insert(None, vec![Transitizer::TrimAll(TrimAll)]);
    san_hm.insert(Some(1), vec![Transitizer::ToUppercase(ToUppercase)]);
    let tokens: VecDeque<String> =
        VecDeque::from(vec![" a ".to_string(), " b".to_string(), "c ".to_string()]);
    let res = sanitize_tokenizer_iter_res(4, tokens.clone(), &Some(san_hm)).unwrap();
    assert_eq!(res, vec!["a", "B", "c"]);

    let res = sanitize_tokenizer_iter_res(4, tokens, &None).unwrap();
    assert_eq!(res, vec![" a ", " b", "c "]);
}

#[test]
fn a_line_fails_with_the_error_of_its_first_failing_token() {
    let mut san_hm = TransitizerMap::new();
    san_hm.insert(Some(1), vec![take_digits()]);
    san_hm.insert(Some(2), vec![take_digits()]);
    let tokens: VecDeque<String> =
        VecDeque::from(vec!["x".to_string(), "y".to_string(), "z".to_string()]);
    let err = sanitize_tokenizer_iter_res(9, tokens, &Some(san_hm)).unwrap_err();
    match err {
        PattiCsvError::Sanitize(se) => {
            assert_eq!(se.line, Some(9));
            assert_eq!(se.column, Some(1));
            assert_eq!(se.from_token, "y");
        }
        other => panic!("{:?}", other),
    }
}

#[test]
fn layout_names_every_column() {
    let header_tokens: VecDeque<String> =
        VecDeque::from(vec!["H1".to_string(), "H2".to_string()]);
    let typings = vec![
        TypeColumnEntry::new(Some("H1-cfg".to_string()), ValueType::Int32),
        TypeColumnEntry::new(None, ValueType::Bool),
    ];
    let res = build_layout_template(Some(&header_tokens), &typings).unwrap();
    assert_eq!(
        res,
        DataCellRow(vec![
            DataCell::new_without_data(ValueType::Int32, "H1-cfg".into(), 0),
            DataCell::new_without_data(ValueType::Bool, "H2".into(), 1),
        ])
    );

    let res = build_layout_template(None, &typings).unwrap();
    assert_eq!(
        res,
        DataCellRow(vec![
            DataCell::new_without_data(ValueType::Int32, "H1-cfg".into(), 0),
            DataCell::new_without_data(ValueType::Bool, "1".into(), 1),
        ])
    );
}

#[test]
fn layout_fails_for_the_first_column_without_a_header() {
    let header_tokens: VecDeque<String> = VecDeque::from(vec!["H1".to_string()]);
    let typings = vec![
        TypeColumnEntry::new(None, ValueType::Int32),
        TypeColumnEntry::new(Some("named".to_string()), ValueType::Bool),
        TypeColumnEntry::new(None, ValueType::Bool),
        TypeColumnEntry::new(None, ValueType::Bool),
    ];
    assert_eq!(
        build_layout_template(Some(&header_tokens), &typings),
        Err(PattiCsvError::ConfigError {
            msg: "No header provided for column#2".into()
        })
    );
}

#[test]
fn transitizer_map_files_chains_by_key() {
    let mut map = TransitizerMap::new();
    assert!(map.is_empty());
    assert!(map.insert(None, vec![Transitizer::TrimAll(TrimAll)]).is_none());
    assert!(map
        .insert(Some(4), vec![Transitizer::TrimAll(TrimAll)])
        .is_none());
    let before = map.insert(Some(4), vec![]).unwrap();
    assert_eq!(before.len(), 1);
    assert_eq!(map.len(), 2);
    assert!(map.contains_key(&None));
    assert!(map.contains_key(&Some(4)));
    assert!(!map.contains_key(&Some(0)));
    assert_eq!(map.get(&Some(4)).unwrap().len(), 0);
    map.extend_chain(Some(4), vec![Transitizer::ToUppercase(ToUppercase)]);
    map.extend_chain(Some(4), vec![Transitizer::TrimAll(TrimAll)]);
    map.extend_chain(Some(5), vec![Transitizer::TrimAll(TrimAll)]);
    assert_eq!(map.len(), 3);
    let chain = map.get(&Some(4)).unwrap();
    assert_eq!(chain.len(), 2);
    assert!(matches!(chain[0], Transitizer::ToUppercase(_)));
    assert!(matches!(chain[1], Transitizer::TrimAll(_)));
    assert!(map.get(&Some(6)).is_none());
}
