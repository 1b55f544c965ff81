use std::sync::Arc;

use coca_frequency_list::engine::{apply, page};
use coca_frequency_list::query::simple_query;
use coca_frequency_list::{MatchType, SheetType};
use datafusion::arrow::array::{Array, ArrayRef, Int64Array, StringArray};
use datafusion::arrow::record_batch::RecordBatch;
use datafusion::prelude::{DataFrame, SessionContext};

const LEMMAS: [&str; 20] = [
    "the", "dog", "undo", "cat", "unit", "run", "fun", "under", "bun", "cats", "dog", "uncle", "a", "b",
    "c", "d", "e", "f", "g", "h",
];

fn lemmas_table(ctx: &SessionContext) -> DataFrame {
    let n = LEMMAS.len() as i64;
    let rank: ArrayRef = Arc::new(Int64Array::from((1..=n).collect::<Vec<_>>()));
    let lemma: ArrayRef = Arc::new(StringArray::from(LEMMAS.to_vec()));
    let pos: ArrayRef = Arc::new(StringArray::from(
        (0..LEMMAS.len()).map(|i| if i % 2 == 0 { "n" } else { "v" }).collect::<Vec<_>>(),
    ));
    let freq: ArrayRef = Arc::new(Int64Array::from((1..=n).map(|i| 1000 - i * 7 % 13).collect::<Vec<_>>()));
    let batch =
        RecordBatch::try_from_iter(vec![("rank", rank), ("lemma", lemma), ("PoS", pos), ("freq", freq)]).unwrap();
    ctx.read_batch(batch).unwrap()
}

fn names(df: &DataFrame) -> Vec<String> {
    df.schema().fields().iter().map(|f| f.name().clone()).collect()
}

fn collect(df: DataFrame) -> Vec<RecordBatch> {
    tokio::runtime::Runtime::new().unwrap().block_on(df.collect()).unwrap()
}

fn text_column(batches: &[RecordBatch], name: &str) -> Vec<String> {
    let mut out = Vec::new();
    for b in batches {
        let col = b.column_by_name(name).unwrap();
        let col = col.as_any().downcast_ref::<StringArray>().unwrap();
        for i in 0..col.len() {
            out.push(col.value(i).to_string());
        }
    }
    out
}

fn int_column(batches: &[RecordBatch], name: &str) -> Vec<i64> {
    let mut out = Vec::new();
    for b in batches {
        let col = b.column_by_name(name).unwrap();
        let col = col.as_any().downcast_ref::<Int64Array>().unwrap();
        for i in 0..col.len() {
            out.push(col.value(i));
        }
    }
    out
}

#[test]
fn exact_words_select_matching_rows() {
    let ctx = SessionContext::new();
    let df = lemmas_table(&ctx);
    let schema = names(&df);
    let words = vec!["dog".to_string(), "cat".to_string()];
    let q = simple_query(&schema, SheetType::First, Some((&words, MatchType::All)), None, None, None, None, None)
        .unwrap();
    let batches = collect(apply(df, &q).unwrap());
    let mut got = text_column(&batches, "lemma");
    got.sort();
    assert_eq!(got, vec!["cat", "dog", "dog"]);
    let b = &batches[0];
    let cols: Vec<String> = b.schema().fields().iter().map(|f| f.name().clone()).collect();
    assert_eq!(cols, vec!["rank", "lemma", "freq"]);
}

#[test]
fn prefix_selects_rows_starting_with_word() {
    let ctx = SessionContext::new();
    let df = lemmas_table(&ctx);
    let schema = names(&df);
    let words = vec!["un".to_string()];
    let q = simple_query(&schema, SheetType::First, Some((&words, MatchType::Prefix)), None, None, None, None, None)
        .unwrap();
    let mut got = text_column(&collect(apply(df, &q).unwrap()), "lemma");
    got.sort();
    let mut want: Vec<String> = LEMMAS.iter().filter(|w| w.starts_with("un")).map(|w| w.to_string()).collect();
    want.sort();
    assert_eq!(got, want);
}

#[test]
fn suffix_and_pos_filter_together() {
    let ctx = SessionContext::new();
    let df = lemmas_table(&ctx);
    let schema = names(&df);
    let words = vec!["un".to_string(), "og".to_string()];
    let pos = vec!["v".to_string()];
    let q = simple_query(&schema, SheetType::First, Some((&words, MatchType::Suffix)), Some(&pos), None, None, None, None)
        .unwrap();
    let mut got = text_column(&collect(apply(df, &q).unwrap()), "lemma");
    got.sort();
    let want: Vec<String> = LEMMAS
        .iter()
        .enumerate()
        .filter(|(i, w)| i % 2 == 1 && (w.ends_with("un") || w.ends_with("og")))
        .map(|(_, w)| w.to_string())
        .collect();
    let mut want = want;
    want.sort();
    assert_eq!(got, want);
}

#[test]
fn skip_ten_limit_five_gives_rows_eleven_to_fifteen() {
    let ctx = SessionContext::new();
    let df = lemmas_table(&ctx);
    let schema = names(&df);
    let sorted = "rank".to_string();
    let q = simple_query(&schema, SheetType::First, None, None, Some(&sorted), Some(10), Some(5), None).unwrap();
    let ranks = int_column(&collect(apply(df, &q).unwrap()), "rank");
    assert_eq!(ranks, vec![10, 9, 8, 7, 6]);

    let df = lemmas_table(&ctx);
    let q = simple_query(&schema, SheetType::First, None, None, None, Some(10), Some(5), None).unwrap();
    assert_eq!(int_column(&collect(apply(df, &q).unwrap()), "rank").len(), 5);

    let words = vec!["dog".to_string()];
    let df = lemmas_table(&ctx);
    let q = simple_query(&schema, SheetType::First, Some((&words, MatchType::All)), None, None, Some(10), Some(5), None)
        .unwrap();
    assert!(int_column(&collect(apply(df, &q).unwrap()), "rank").is_empty());
}

#[test]
fn paging_a_table_directly() {
    let ctx = SessionContext::new();
    let df = page(lemmas_table(&ctx), Some(18), None).unwrap();
    assert_eq!(int_column(&collect(df), "rank"), vec![19, 20]);
    let df = page(lemmas_table(&ctx), None, None).unwrap();
    assert_eq!(int_column(&collect(df), "rank").len(), 20);
}
