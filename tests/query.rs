use coca_frequency_list::query::{default_columns, has_column, paging, simple_query, Predicate, Query};
use coca_frequency_list::{Error, MatchType, SheetType};

fn strings(items: &[&str]) -> Vec<String> {
    items.iter().map(|s| s.to_string()).collect()
}

fn lemmas_schema() -> Vec<String> {
    strings(&["rank", "lemma", "PoS", "freq", "perMil", "%caps", "%allC"])
}

fn forms_schema() -> Vec<String> {
    strings(&["rank", "word", "freq", "#texts", "%lowercase"])
}

fn word_forms_schema() -> Vec<String> {
    strings(&["lemRank", "lemma", "PoS", "word", "freq"])
}

fn subgenres_schema() -> Vec<String> {
    strings(&["rank", "lemma", "PoS", "blog", "web", "TVM"])
}

fn arg_message(e: &Error) -> String {
    match e {
        Error::ArgError(c) => c.msg.clone(),
        _ => panic!("not an argument error"),
    }
}

fn run(
    schema: &Vec<String>,
    sheet: SheetType,
    words: Option<(&Vec<String>, MatchType)>,
    pos: Option<&Vec<String>>,
    sorted: Option<&String>,
    skip: Option<usize>,
    limit: Option<usize>,
    extra: Option<&Vec<String>>,
) -> Result<Query, Error> {
    simple_query(schema, sheet, words, pos, sorted, skip, limit, extra)
}

#[test]
fn default_columns_per_sheet() {
    assert_eq!(default_columns(SheetType::First).names(), Some(strings(&["rank", "lemma", "freq"])));
    assert_eq!(default_columns(SheetType::Second).names(), Some(strings(&["rank", "lemma"])));
    assert_eq!(default_columns(SheetType::Third).names(), None);
    assert_eq!(
        default_columns(SheetType::Fourth).names(),
        Some(strings(&["rank", "word", "freq", "#texts"]))
    );
}

#[test]
fn no_criteria_gives_defaults() {
    let q = run(&lemmas_schema(), SheetType::First, None, None, None, None, None, None).unwrap();
    assert!(q.filter.is_none());
    assert!(q.sort_by.is_none());
    assert!(q.page.is_none());
    assert_eq!(q.columns.names(), Some(strings(&["rank", "lemma", "freq"])));
    let q = run(&word_forms_schema(), SheetType::Third, None, None, None, None, None, None).unwrap();
    assert_eq!(q.columns.names(), None);
}

#[test]
fn exact_words_on_lemmas() {
    let words = strings(&["dog", "cat"]);
    let q = run(&lemmas_schema(), SheetType::First, Some((&words, MatchType::All)), None, None, None, None, None)
        .unwrap();
    assert_eq!(q.filter, Some(Predicate::InList("lemma".to_string(), strings(&["dog", "cat"]))));
}

#[test]
fn prefix_on_lemmas() {
    let words = strings(&["un"]);
    let q = run(&lemmas_schema(), SheetType::First, Some((&words, MatchType::Prefix)), None, None, None, None, None)
        .unwrap();
    assert_eq!(q.filter, Some(Predicate::StartsWith("lemma".to_string(), "un".to_string())));
}

#[test]
fn suffix_words_are_or_ed_in_order() {
    let words = strings(&["ing", "ed", "s"]);
    let q = run(&forms_schema(), SheetType::Fourth, Some((&words, MatchType::Suffix)), None, None, None, None, None)
        .unwrap();
    let t = |w: &str| Box::new(Predicate::EndsWith("word".to_string(), w.to_string()));
    assert_eq!(q.filter, Some(Predicate::Or(Box::new(Predicate::Or(t("ing"), t("ed"))), t("s"))));
}

#[test]
fn words_and_pos_are_and_ed() {
    let words = strings(&["run"]);
    let pos = strings(&["v", "n"]);
    let q = run(&lemmas_schema(), SheetType::First, Some((&words, MatchType::All)), Some(&pos), None, None, None, None)
        .unwrap();
    assert_eq!(
        q.filter,
        Some(Predicate::And(
            Box::new(Predicate::InList("lemma".to_string(), strings(&["run"]))),
            Box::new(Predicate::InList("PoS".to_string(), strings(&["v", "n"]))),
        ))
    );
}

#[test]
fn pos_without_pos_column_errors() {
    let pos = strings(&["v"]);
    let e = run(&forms_schema(), SheetType::Fourth, None, Some(&pos), None, None, None, None).unwrap_err();
    assert_eq!(arg_message(&e), "Invalid sheet type for specifying part of speech(PoS).");
    let q = run(&subgenres_schema(), SheetType::Second, None, Some(&pos), None, None, None, None).unwrap();
    assert_eq!(q.filter, Some(Predicate::InList("PoS".to_string(), strings(&["v"]))));
}

#[test]
fn sort_by_missing_column_errors() {
    let col = "nope".to_string();
    let e = run(&lemmas_schema(), SheetType::First, None, None, Some(&col), None, None, None).unwrap_err();
    assert_eq!(arg_message(&e), "Invalid column for sorting in the specified sheet.");
}

#[test]
fn sort_column_joins_projection() {
    let col = "perMil".to_string();
    let q = run(&lemmas_schema(), SheetType::First, None, None, Some(&col), None, None, None).unwrap();
    assert_eq!(q.sort_by, Some("perMil".to_string()));
    assert_eq!(q.columns.names(), Some(strings(&["rank", "lemma", "freq", "perMil"])));
    let col = "freq".to_string();
    let q = run(&lemmas_schema(), SheetType::First, None, None, Some(&col), None, None, None).unwrap();
    assert_eq!(q.columns.names(), Some(strings(&["rank", "lemma", "freq"])));
}

#[test]
fn skip_and_limit_page() {
    let q = run(&lemmas_schema(), SheetType::First, None, None, None, Some(10), Some(5), None).unwrap();
    assert_eq!(q.page, Some((10, Some(5))));
    let q = run(&lemmas_schema(), SheetType::First, None, None, None, None, Some(5), None).unwrap();
    assert_eq!(q.page, Some((0, Some(5))));
    let q = run(&lemmas_schema(), SheetType::First, None, None, None, Some(3), None, None).unwrap();
    assert_eq!(q.page, Some((3, None)));
}

#[test]
fn additional_columns_merge_without_repeats() {
    let sorted = "perMil".to_string();
    let extra = strings(&["PoS", "rank", "perMil", "%caps"]);
    let q = run(&lemmas_schema(), SheetType::First, None, None, Some(&sorted), None, None, Some(&extra)).unwrap();
    assert_eq!(q.columns.names(), Some(strings(&["rank", "lemma", "freq", "perMil", "PoS", "%caps"])));
}

#[test]
fn additional_missing_column_errors() {
    let extra = strings(&["rank", "missing"]);
    let e = run(&lemmas_schema(), SheetType::First, None, None, None, None, None, Some(&extra)).unwrap_err();
    assert_eq!(arg_message(&e), "Invalid column for select in the specified sheet.");
}

#[test]
fn errors_come_in_fixed_order() {
    let pos = strings(&["v"]);
    let col = "nope".to_string();
    let extra = strings(&["missing"]);
    let e = run(&forms_schema(), SheetType::Fourth, None, Some(&pos), Some(&col), None, None, Some(&extra))
        .unwrap_err();
    assert_eq!(arg_message(&e), "Invalid sheet type for specifying part of speech(PoS).");
    let e = run(&forms_schema(), SheetType::Fourth, None, None, Some(&col), None, None, Some(&extra)).unwrap_err();
    assert_eq!(arg_message(&e), "Invalid column for sorting in the specified sheet.");
}

#[test]
fn paging_defaults() {
    assert_eq!(paging(None, None), None);
    assert_eq!(paging(Some(10), Some(5)), Some((10, Some(5))));
    assert_eq!(paging(None, Some(5)), Some((0, Some(5))));
    assert_eq!(paging(Some(2), None), Some((2, None)));
}

#[test]
fn has_column_is_exact() {
    let schema = lemmas_schema();
    assert!(has_column(&schema, &"PoS".to_string()));
    assert!(!has_column(&schema, &"pos".to_string()));
    assert!(!has_column(&Vec::new(), &"rank".to_string()));
}
