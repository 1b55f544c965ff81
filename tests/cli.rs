use coca_frequency_list::cli::{
    parse_sheets, pos_tag_valid, query_args, resolve_match_type, split_list, validate_pos_list,
};
use coca_frequency_list::{Error, MatchType, SheetType};

fn arg_message(e: &Error) -> String {
    match e {
        Error::ArgError(c) => c.msg.clone(),
        _ => panic!("not an argument error"),
    }
}

#[test]
fn prefix_and_suffix_conflict() {
    let e = resolve_match_type(true, true, true).unwrap_err();
    assert_eq!(arg_message(&e), "prefix and suffix cannot be specified at the same time.");
}

#[test]
fn flags_need_words() {
    for (p, s) in [(true, false), (false, true), (true, true)] {
        let e = resolve_match_type(false, p, s).unwrap_err();
        assert_eq!(arg_message(&e), "You can specify prefix or suffix with search words.");
    }
}

#[test]
fn match_type_from_flags() {
    assert!(matches!(resolve_match_type(false, false, false), Ok(None)));
    assert!(matches!(resolve_match_type(true, false, false), Ok(Some(MatchType::All))));
    assert!(matches!(resolve_match_type(true, true, false), Ok(Some(MatchType::Prefix))));
    assert!(matches!(resolve_match_type(true, false, true), Ok(Some(MatchType::Suffix))));
}

#[test]
fn pos_tags() {
    assert!(pos_tag_valid("v"));
    assert!(pos_tag_valid("z"));
    assert!(!pos_tag_valid("b"));
    assert!(!pos_tag_valid("vv"));
    assert!(!pos_tag_valid(""));
    let ok = vec!["n".to_string(), "j".to_string()];
    assert!(validate_pos_list(&ok).is_ok());
    let bad = vec!["n".to_string(), "q".to_string()];
    let e = validate_pos_list(&bad).unwrap_err();
    assert!(arg_message(&e).starts_with("Invalid pos value. Choose pos in [\"a\", \"c\""));
}

#[test]
fn split_fields() {
    assert_eq!(split_list("dog,cat"), vec!["dog".to_string(), "cat".to_string()]);
    assert_eq!(split_list("un"), vec!["un".to_string()]);
    assert_eq!(split_list(""), vec![String::new()]);
    assert_eq!(split_list("a,,b,"), vec!["a".to_string(), String::new(), "b".to_string(), String::new()]);
    assert_eq!(split_list("é,ü"), "é,ü".split(',').map(|s| s.to_string()).collect::<Vec<_>>());
}

#[test]
fn sheet_lists() {
    assert_eq!(parse_sheets("1").unwrap(), vec![SheetType::First]);
    assert_eq!(parse_sheets("3,+1,4").unwrap(), vec![SheetType::Third, SheetType::First, SheetType::Fourth]);
    let e = parse_sheets("1,x").unwrap_err();
    match e {
        Error::ArgError(c) => {
            assert_eq!(c.msg, "sheets must be integer or list of integer.");
            assert_eq!(c.inner, Some("invalid digit found in string".to_string()));
        }
        _ => panic!("not an argument error"),
    }
    let e = parse_sheets("9,x").unwrap_err();
    assert_eq!(arg_message(&e), "sheets must be integer or list of integer.");
    let e = parse_sheets("2,9").unwrap_err();
    assert_eq!(arg_message(&e), "Invalid usize for converting into DataSourceType.");
    assert!(parse_sheets("").is_err());
    assert!(parse_sheets("99999999999999999999999").is_err());
}

#[test]
fn query_arguments() {
    let bad = vec!["q".to_string()];
    let e = query_args(true, true, true, Some(&bad)).unwrap_err();
    assert!(arg_message(&e).starts_with("Invalid pos value."));
    let good = vec!["v".to_string()];
    let e = query_args(true, true, true, Some(&good)).unwrap_err();
    assert_eq!(arg_message(&e), "prefix and suffix cannot be specified at the same time.");
    assert!(matches!(query_args(true, false, true, Some(&good)), Ok(Some(MatchType::Suffix))));
    assert!(matches!(query_args(false, false, false, None), Ok(None)));
}
