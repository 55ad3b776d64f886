use patti_csv::conf::from_jsonconf::{
    add_transitizers_from, resolve_sanitize_column_opts_entry, resolve_sanitize_columns_entry,
};
use patti_csv::conf::jsonconf::{
    CasingOpts, ConfigRoot, ParserOptLines, ParserOpts, ReplaceColumnSanitizerEntry,
    SanitizeColumnOpts, SanitizeColumnsEntry, TrimOpts, TypeColumnsEntry,
    TypeColumnsEntryBuilder,
};
use patti_csv::data::{CellData, DataCell, DataCellRow};
use patti_csv::errors::{PattiCsvError, SanitizeError};
use patti_csv::iterating_parser::PattiCsvParser;
use patti_csv::parser_config::{TransitizerMap, TypeColumnEntry, ValueType};
use patti_csv::skip_take_lines::{LineSkipper, SkipTakeLines};
use patti_csv::transform_sanitize_token::{
    Eradicate, ReplaceWith, ToLowercase, ToUppercase, TransformSanitizeToken, Transitizer,
    TrimAll, TrimLeading, TrimTrailing,
};

#[test]
fn resolve_trim_all() -> Result<(), PattiCsvError> {
    let test_setup_val = SanitizeColumnOpts::Trim {
        spec: TrimOpts::All,
    };
    let exp = vec![Box::new(TrimAll)];
    let test_val = resolve_sanitize_column_opts_entry(&test_setup_val)?;

    assert_eq!(
        exp.get(0).unwrap().get_self_info(),
        test_val.get(0).unwrap().get_self_info()
    );
    Ok(())
}

#[test]
fn resolve_trim_leading() -> Result<(), PattiCsvError> {
    let test_setup_val = SanitizeColumnOpts::Trim {
        spec: TrimOpts::Leading,
    };
    let exp = vec![Box::new(TrimLeading)];
    let test_val = resolve_sanitize_column_opts_entry(&test_setup_val)?;

    assert_eq!(
        exp.get(0).unwrap().get_self_info(),
        test_val.get(0).unwrap().get_self_info()
    );
    Ok(())
}

#[test]
fn resolve_trim_trailing() -> Result<(), PattiCsvError> {
    let test_setup_val = SanitizeColumnOpts::Trim {
        spec: TrimOpts::Trailing,
    };
    let exp = vec![Box::new(TrimTrailing)];
    let test_val = resolve_sanitize_column_opts_entry(&test_setup_val)?;

    assert_eq!(
        exp.get(0).unwrap().get_self_info(),
        test_val.get(0).unwrap().get_self_info()
    );
    Ok(())
}

#[test]
fn resolve_casing_to_lower() -> Result<(), PattiCsvError> {
    let test_setup_val = SanitizeColumnOpts::Casing {
        spec: CasingOpts::ToLower,
    };
    let exp = vec![Box::new(ToLowercase)];
    let test_val = resolve_sanitize_column_opts_entry(&test_setup_val)?;

    assert_eq!(
        exp.get(0).unwrap().get_self_info(),
        test_val.get(0).unwrap().get_self_info()
    );
    Ok(())
}

#[test]
fn resolve_casing_to_upper() -> Result<(), PattiCsvError> {
    let test_setup_val = SanitizeColumnOpts::Casing {
        spec: CasingOpts::ToUpper,
    };
    let exp = vec![Box::new(ToUppercase)];
    let test_val = resolve_sanitize_column_opts_entry(&test_setup_val)?;

    assert_eq!(
        exp.get(0).unwrap().get_self_info(),
        test_val.get(0).unwrap().get_self_info()
    );
    Ok(())
}

#[test]
fn resolve_eradicate() -> Result<(), PattiCsvError> {
    let test_setup_val = SanitizeColumnOpts::Eradicate {
        spec: vec![String::from("foo"), String::from("bar")],
    };
    let exp = vec![
        Box::new(Eradicate::new("foo")),
        Box::new(Eradicate::new("bar")),
    ];
    let test_val = resolve_sanitize_column_opts_entry(&test_setup_val)?;

    assert_eq!(
        exp.get(0).unwrap().get_self_info(),
        test_val.get(0).unwrap().get_self_info()
    );
    assert_eq!(
        exp.get(1).unwrap().get_self_info(),
        test_val.get(1).unwrap().get_self_info()
    );
    Ok(())
}

#[test]
fn resolve_replace() -> Result<(), PattiCsvError> {
    let test_setup_val = SanitizeColumnOpts::Replace {
        spec: vec![
            ReplaceColumnSanitizerEntry {
                from: String::from("aaa"),
                to: String::from("bbb"),
            },
            ReplaceColumnSanitizerEntry {
                from: String::from("ccc"),
                to: String::from("ddd"),
            },
        ],
    };
    let exp = vec![
        Box::new(ReplaceWith::new("aaa", "bbb")),
        Box::new(ReplaceWith::new("ccc", "ddd")),
    ];
    let test_val = resolve_sanitize_column_opts_entry(&test_setup_val)?;

    assert_eq!(
        exp.get(0).unwrap().get_self_info(),
        test_val.get(0).unwrap().get_self_info()
    );
    assert_eq!(
        exp.get(1).unwrap().get_self_info(),
        test_val.get(1).unwrap().get_self_info()
    );
    Ok(())
}

#[test]
fn resolve_regex_take() {
    let take = SanitizeColumnOpts::RegexTake {
        spec: String::from("^(\\d+)"),
    };
    let chain = resolve_sanitize_column_opts_entry(&take).unwrap();
    assert_eq!(chain.len(), 1);
    assert_eq!(chain[0].transitize("12 EUR"), Ok("12".into()));

    let broken = SanitizeColumnOpts::RegexTake {
        spec: String::from("^(\\d+"),
    };
    assert_eq!(
        resolve_sanitize_column_opts_entry(&broken).unwrap_err(),
        PattiCsvError::Sanitize(SanitizeError::minim(
            format!("{}", regex::Regex::new("^(\\d+").unwrap_err()),
            "ERROR_ON_REGEX_COMPILE".into()
        ))
    );
}

#[test]
fn add_transitizers_from_succ() -> Result<(), PattiCsvError> {
    let sce = SanitizeColumnsEntry {
        comment: None,
        idxs: Some(vec![0_usize, 1]),
        sanitizers: vec![
            SanitizeColumnOpts::Trim {
                spec: TrimOpts::All,
            },
            SanitizeColumnOpts::Casing {
                spec: CasingOpts::ToLower,
            },
        ],
    };

    let mut transitizers_map = TransitizerMap::new();

    add_transitizers_from(&sce, &mut transitizers_map)?;

    assert_eq!(2, transitizers_map.len());
    assert_eq!(2, transitizers_map.get(&Some(0)).unwrap().len());
    assert_eq!(2, transitizers_map.get(&Some(1)).unwrap().len());

    println!("{:?}", &transitizers_map);

    Ok(())
}

#[test]
fn add_transitizers_appends_to_what_is_filed() {
    let mut map = TransitizerMap::new();
    let global = SanitizeColumnsEntry {
        comment: None,
        idxs: None,
        sanitizers: vec![SanitizeColumnOpts::Trim {
            spec: TrimOpts::All,
        }],
    };
    let more = SanitizeColumnsEntry {
        comment: None,
        idxs: None,
        sanitizers: vec![SanitizeColumnOpts::Eradicate {
            spec: vec!["a".into(), "b".into()],
        }],
    };
    let twice = SanitizeColumnsEntry {
        comment: None,
        idxs: Some(vec![3, 3]),
        sanitizers: vec![SanitizeColumnOpts::Casing {
            spec: CasingOpts::ToUpper,
        }],
    };
    add_transitizers_from(&global, &mut map).unwrap();
    add_transitizers_from(&more, &mut map).unwrap();
    add_transitizers_from(&twice, &mut map).unwrap();
    assert_eq!(map.len(), 2);
    let infos: Vec<String> = map
        .get(&None)
        .unwrap()
        .iter()
        .map(|t| t.get_self_info())
        .collect();
    assert_eq!(
        infos,
        vec![
            "TrimAll",
            "Eradicate { eradicate: \"a\" }",
            "Eradicate { eradicate: \"b\" }"
        ]
    );
    assert_eq!(map.get(&Some(3)).unwrap().len(), 2);

    let broken = SanitizeColumnsEntry {
        comment: None,
        idxs: Some(vec![9]),
        sanitizers: vec![
            SanitizeColumnOpts::Trim {
                spec: TrimOpts::All,
            },
            SanitizeColumnOpts::RegexTake { spec: "(".into() },
        ],
    };
    assert!(add_transitizers_from(&broken, &mut map).is_err());
    assert_eq!(map.len(), 2);
    assert!(map.get(&Some(9)).is_none());

    // without columns to file under, nothing is compiled
    let idle = SanitizeColumnsEntry {
        comment: None,
        idxs: Some(vec![]),
        sanitizers: vec![SanitizeColumnOpts::RegexTake { spec: "(".into() }],
    };
    assert_eq!(resolve_sanitize_columns_entry(&idle).unwrap().len(), 0);
}

#[test]
fn from_sanitize_column_entry_for_global_and_trans_san_token_tuple_trim_all() {
    let sce = SanitizeColumnsEntry {
        comment: None,
        idxs: None,
        sanitizers: vec![SanitizeColumnOpts::Trim {
            spec: TrimOpts::All,
        }],
    };

    let res = resolve_sanitize_columns_entry(&sce).unwrap();
    assert_eq!(1, res.len());

    let res_first = res.first().unwrap();
    assert_eq!(None, res_first.0);

    let exp: Vec<Transitizer> = vec![Transitizer::TrimAll(TrimAll)];
    assert_eq!(
        exp.get(0).unwrap().get_self_info(),
        res_first.1.get(0).unwrap().get_self_info()
    );
}

#[test]
fn from_sanitize_column_entry_for_idx_and_trans_san_token_tuple_replace_with() {
    let sce = SanitizeColumnsEntry {
        comment: None,
        idxs: Some(vec![1_usize]),
        sanitizers: vec![SanitizeColumnOpts::Replace {
            spec: vec![ReplaceColumnSanitizerEntry {
                from: String::from("foo"),
                to: String::from("bar"),
            }],
        }],
    };

    let res = resolve_sanitize_columns_entry(&sce).unwrap();
    assert_eq!(1, res.len());

    let res_first = res.first().unwrap();
    assert_eq!(Some(1), res_first.0);

    let exp: Vec<Transitizer> = vec![Transitizer::ReplaceWith(ReplaceWith::new("foo", "bar"))];
    assert_eq!(
        exp.get(0).unwrap().get_self_info(),
        res_first.1.get(0).unwrap().get_self_info()
    );
}

#[test]
fn from_type_columns_entry_for_type_column_entry_no_date_type() {
    let exp = TypeColumnEntry::new(Some(String::from("header-1")), ValueType::Char);
    let test = TypeColumnsEntry::builder()
        .with_header("header-1")
        .build_with_target_type(ValueType::Char);
    let res = TypeColumnEntry::from(&test);
    assert_eq!(exp, res);
}

#[test]
fn from_type_columns_entry_for_type_column_entry_date_type() {
    let exp = TypeColumnEntry::new(Some(String::from("header-1")), ValueType::DateTime);
    let test = TypeColumnsEntry::builder()
        .with_header("header-1")
        .build_with_target_type(ValueType::DateTime);
    let res = TypeColumnEntry::from(&test);
    assert_eq!(exp, res);
}

#[test]
fn type_columns_entry_carries_pattern_and_none_texts() {
    let mut builder = TypeColumnsEntryBuilder::default();
    builder
        .with_comment("when")
        .with_datetype_src_pattern("%F")
        .with_map_to_none(vec!["n/a".into(), "-".into()]);
    let entry = builder.build_with_target_type(ValueType::NaiveDate);
    assert_eq!(entry.comment.as_deref(), Some("when"));
    assert_eq!(
        TypeColumnEntry::from(&entry),
        TypeColumnEntry::new_with_chrono_pattern_with_map_to_none(
            None,
            ValueType::NaiveDate,
            "%F",
            vec!["n/a".into(), "-".into()]
        )
    );
    // the builder is spent
    assert_eq!(
        builder.build_with_target_type(ValueType::Bool),
        TypeColumnsEntry::new(ValueType::Bool)
    );

    let only_pattern = TypeColumnsEntry::builder()
        .with_datetype_src_pattern("%F")
        .build_with_target_type(ValueType::NaiveDate);
    assert_eq!(
        TypeColumnEntry::from(&only_pattern),
        TypeColumnEntry::new_with_chrono_pattern(None, ValueType::NaiveDate, "%F")
    );
    let only_none = TypeColumnsEntry::builder()
        .with_map_to_none(vec!["x".into()])
        .build_with_target_type(ValueType::Int8);
    assert_eq!(
        TypeColumnEntry::from(&only_none),
        TypeColumnEntry::new_with_map_to_none(None, ValueType::Int8, vec!["x".into()])
    );
}

fn config() -> ConfigRoot {
    ConfigRoot {
        comment: None,
        parser_opts: ParserOpts {
            comment: None,
            separator_char: ',',
            enclosure_char: Some('"'),
            lines: Some(ParserOptLines {
                comment: None,
                skip_lines_from_start: Some(1_usize),
                skip_empty_lines: Some(true),
                skip_lines_by_startswith: Some(vec![String::from("#"), String::from("-")]),
                skip_lines_by_regex: None,
            }),
            first_line_is_header: true,
            save_skipped_lines: false,
        },
        sanitize_columns: Some(vec![
            SanitizeColumnsEntry {
                comment: None,
                idxs: None,
                sanitizers: vec![SanitizeColumnOpts::Trim {
                    spec: TrimOpts::All,
                }],
            },
            SanitizeColumnsEntry {
                comment: None,
                idxs: Some(vec![0_usize]),
                sanitizers: vec![SanitizeColumnOpts::Casing {
                    spec: CasingOpts::ToLower,
                }],
            },
        ]),
        type_columns: Some(vec![
            TypeColumnsEntry::builder()
                .with_comment("0")
                .with_header("Header-1")
                .build_with_target_type(ValueType::Char),
            TypeColumnsEntry::builder()
                .with_comment("1")
                .with_header("Header-2")
                .build_with_target_type(ValueType::String),
            TypeColumnsEntry::builder()
                .with_comment("2")
                .with_header("Header-3")
                .build_with_target_type(ValueType::Int8),
            TypeColumnsEntry::builder()
                .with_comment("3")
                .with_header("Header-4")
                .with_datetype_src_pattern("%F")
                .build_with_target_type(ValueType::NaiveDate),
        ]),
    }
}

#[test]
fn try_from_data_cfg_root_tuple_for_patti_csv_parser_1() {
    let cfg = config();

    let data_str = "# some bullshit\n\n-some bullshit again\na,b,c,d\n A, BEE , 1 , 2022-01-01 ";

    let parser = PattiCsvParser::try_from(cfg).unwrap();
    let mut iter = parser.parse_iter(data_str);

    let res_header = iter.next().unwrap().unwrap(); // first unwrap is from the iter, second one is our result
    let res_line01 = iter.next().unwrap().unwrap(); // first unwrap is from the iter, second one is our result

    assert_eq!(
        DataCellRow(vec![
            DataCell::new(
                ValueType::String,
                String::from("Header-1"),
                0,
                CellData::Text(String::from("Header-1"))
            ),
            DataCell::new(
                ValueType::String,
                String::from("Header-2"),
                1,
                CellData::Text(String::from("Header-2"))
            ),
            DataCell::new(
                ValueType::String,
                String::from("Header-3"),
                2,
                CellData::Text(String::from("Header-3"))
            ),
            DataCell::new(
                ValueType::String,
                String::from("Header-4"),
                3,
                CellData::Text(String::from("Header-4"))
            ),
        ]),
        res_header
    );

    assert_eq!(
        DataCellRow(vec![
            DataCell::new(
                ValueType::Char,
                String::from("Header-1"),
                0,
                CellData::Unparsed(String::from("a"))
            ),
            DataCell::new(
                ValueType::String,
                String::from("Header-2"),
                1,
                CellData::Text(String::from("BEE"))
            ),
            DataCell::new(
                ValueType::Int8,
                String::from("Header-3"),
                2,
                CellData::Unparsed(String::from("1"))
            ),
            DataCell::new(
                ValueType::NaiveDate,
                String::from("Header-4"),
                3,
                CellData::Unparsed(String::from("2022-01-01"))
            ),
        ]),
        res_line01
    );
}

#[test]
fn config_rules_come_in_their_order() {
    let mut cfg = config();
    cfg.parser_opts.save_skipped_lines = true;
    cfg.parser_opts.lines = Some(ParserOptLines {
        comment: None,
        skip_lines_from_start: Some(2),
        skip_empty_lines: Some(true),
        skip_lines_by_startswith: Some(vec!["#".into()]),
        skip_lines_by_regex: Some(vec!["^x+$".into()]),
    });
    let parser = PattiCsvParser::try_from(cfg).unwrap();
    assert!(parser.dlt.save_skipped_lines);
    let rules = parser.dlt.skip_take_lines_fns.as_ref().unwrap();
    let infos: Vec<String> = rules.iter().map(|r| r.get_self_info()).collect();
    assert_eq!(
        infos,
        vec![
            "SkipEmptyLines",
            "SkipLinesFromStart { skip_num_lines: 2 }",
            "SkipLinesStartingWith { starts_with: \"#\" }",
            "SkipLinesByRegex { regex: Regex(\"^x+$\") }",
        ]
    );
    assert!(matches!(rules[3], LineSkipper::ByRegex(_)));
    assert!(parser.dlt.skip_line_by_skiptake_sanitizer(9, "xxx"));
    assert!(!parser.dlt.skip_line_by_skiptake_sanitizer(9, "xxy"));
    let transitizers = parser.column_transitizers.as_ref().unwrap();
    assert_eq!(transitizers.len(), 2);
    assert_eq!(parser.column_typings.as_ref().unwrap().len(), 4);
}

#[test]
fn config_without_rules_chains_and_typings() {
    let mut cfg = config();
    cfg.parser_opts.lines = Some(ParserOptLines {
        comment: None,
        skip_lines_from_start: None,
        skip_empty_lines: Some(false),
        skip_lines_by_startswith: Some(vec![]),
        skip_lines_by_regex: None,
    });
    cfg.sanitize_columns = Some(vec![]);
    cfg.type_columns = None;
    cfg.parser_opts.first_line_is_header = false;
    cfg.parser_opts.enclosure_char = None;
    cfg.parser_opts.separator_char = ';';
    let parser = PattiCsvParser::try_from(cfg).unwrap();
    assert!(parser.dlt.skip_take_lines_fns.is_none());
    assert!(parser.column_transitizers.is_none());
    assert!(parser.column_typings.is_none());
    assert!(!parser.first_data_line_is_header);
    assert_eq!(parser.dlt.delim_char, ';');
    assert_eq!(parser.dlt.encl_char, None);
}

#[test]
fn config_failures() {
    let mut cfg = config();
    cfg.type_columns = Some(vec![]);
    assert_eq!(
        PattiCsvParser::try_from(cfg).unwrap_err(),
        PattiCsvError::ConfigError {
            msg: "mandatory 'column typings' are not set! (Empty vec)".into()
        }
    );

    let mut cfg = config();
    cfg.parser_opts.lines.as_mut().unwrap().skip_lines_by_regex =
        Some(vec!["ok".into(), "[".into()]);
    let expected = format!(
        "[ERROR_ON_REGEX_COMPILE] Cannot create SkipLinesByRegex by given regex str=[. Error: {}",
        regex::Regex::new("[").unwrap_err()
    );
    assert_eq!(
        PattiCsvParser::try_from(cfg).unwrap_err(),
        PattiCsvError::ConfigError { msg: expected }
    );

    let mut cfg = config();
    cfg.sanitize_columns
        .as_mut()
        .unwrap()
        .push(SanitizeColumnsEntry {
            comment: None,
            idxs: None,
            sanitizers: vec![SanitizeColumnOpts::RegexTake { spec: "(".into() }],
        });
    assert!(matches!(
        PattiCsvParser::try_from(cfg).unwrap_err(),
        PattiCsvError::Sanitize(_)
    ));
}
