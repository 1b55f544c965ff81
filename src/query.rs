use vstd::prelude::*;

use crate::columns::{insert_name, insert_names, Columns};
use crate::error::{is_arg_error, Error};
use crate::sheet::{spec_search_column, MatchType, SheetType};

verus! {

/// A row filter over named text columns, in the shape the query engine takes.
#[derive(Debug, PartialEq, Eq)]
pub enum Predicate {
    /// The column's value is one of the listed values.
    InList(String, Vec<String>),
    /// The column's value starts with the given text.
    StartsWith(String, String),
    /// The column's value ends with the given text.
    EndsWith(String, String),
    Or(Box<Predicate>, Box<Predicate>),
    And(Box<Predicate>, Box<Predicate>),
}

/// A query over one loaded table, applied in this order: filter, descending
/// sort, skip and limit, projection.
#[derive(Debug)]
pub struct Query {
    pub filter: Option<Predicate>,
    /// Column to sort by, descending with nulls last.
    pub sort_by: Option<String>,
    /// Rows to skip and the most rows to keep.
    pub page: Option<(usize, Option<usize>)>,
    /// Columns kept, in order.
    pub columns: Columns,
}

/// A row as the text of its non-null cells, by column name.
pub type Row = Map<Seq<char>, Seq<char>>;

pub open spec fn starts_with(s: Seq<char>, p: Seq<char>) -> bool {
    p.len() <= s.len() && s.subrange(0, p.len() as int) == p
}

pub open spec fn ends_with(s: Seq<char>, p: Seq<char>) -> bool {
    p.len() <= s.len() && s.subrange(s.len() - p.len(), s.len() as int) == p
}

/// Whether a row passes a filter; a missing cell passes no test on it.
pub open spec fn eval(p: Predicate, row: Row) -> bool
    decreases p,
{
    match p {
        Predicate::InList(c, vs) => row.contains_key(c@) && vs.deep_view().contains(row[c@]),
        Predicate::StartsWith(c, v) => row.contains_key(c@) && starts_with(row[c@], v@),
        Predicate::EndsWith(c, v) => row.contains_key(c@) && ends_with(row[c@], v@),
        Predicate::Or(a, b) => eval(*a, row) || eval(*b, row),
        Predicate::And(a, b) => eval(*a, row) && eval(*b, row),
    }
}

/// Whether a cell matches one search word.
pub open spec fn cell_matches(cell: Seq<char>, word: Seq<char>, m: MatchType) -> bool {
    match m {
        MatchType::All => cell == word,
        MatchType::Prefix => starts_with(cell, word),
        MatchType::Suffix => ends_with(cell, word),
    }
}

/// Whether the cell of `column` matches one of the first `n` words.
pub open spec fn matches_any(row: Row, column: Seq<char>, words: Seq<Seq<char>>, m: MatchType, n: int) -> bool {
    row.contains_key(column) && exists|j: int| 0 <= j < n && #[trigger] cell_matches(row[column], words[j], m)
}

/// Whether a row passes the word search.
pub open spec fn word_filter(row: Row, column: Seq<char>, words: Seq<Seq<char>>, m: MatchType) -> bool {
    matches_any(row, column, words, m, words.len() as int)
}

pub open spec fn pos_column() -> Seq<char> {
    "PoS"@
}

/// Whether a row's part of speech is one of `pos`.
pub open spec fn pos_filter(row: Row, pos: Seq<Seq<char>>) -> bool {
    row.contains_key(pos_column()) && pos.contains(row[pos_column()])
}

/// Columns selected for each sheet when nothing else is asked for; `None`
/// selects every column.
pub open spec fn spec_default_columns(s: SheetType) -> Option<Seq<Seq<char>>> {
    match s {
        SheetType::First => Some(seq!["rank"@, "lemma"@, "freq"@]),
        SheetType::Second => Some(seq!["rank"@, "lemma"@]),
        SheetType::Third => None,
        SheetType::Fourth => Some(seq!["rank"@, "word"@, "freq"@, "#texts"@]),
    }
}

pub open spec fn pos_sheet_msg() -> Seq<char> {
    "Invalid sheet type for specifying part of speech(PoS)."@
}

pub open spec fn sort_column_msg() -> Seq<char> {
    "Invalid column for sorting in the specified sheet."@
}

pub open spec fn select_column_msg() -> Seq<char> {
    "Invalid column for select in the specified sheet."@
}

pub open spec fn opt_names(v: Option<&Vec<String>>) -> Seq<Seq<char>> {
    match v {
        Some(v) => v.deep_view(),
        None => Seq::empty(),
    }
}

/// The columns asked for beyond the defaults: the sort column, then the
/// additional ones.
pub open spec fn extra_columns(sorted: Option<&String>, additional: Option<&Vec<String>>) -> Seq<Seq<char>> {
    let s = match sorted {
        Some(c) => seq![c@],
        None => Seq::empty(),
    };
    s + opt_names(additional)
}

/// Whether the combined filter keeps a row.
pub open spec fn filter_keeps(
    row: Row,
    sheet_type: SheetType,
    words_and_match: Option<(&Vec<String>, MatchType)>,
    pos: Option<&Vec<String>>,
) -> bool {
    &&& word_part(row, sheet_type, words_and_match)
    &&& pos_part(row, pos)
}

pub open spec fn word_part(row: Row, sheet_type: SheetType, words_and_match: Option<(&Vec<String>, MatchType)>) -> bool {
    match words_and_match {
        Some((words, m)) => word_filter(row, spec_search_column(sheet_type), words.deep_view(), m),
        None => true,
    }
}

pub open spec fn pos_part(row: Row, pos: Option<&Vec<String>>) -> bool {
    match pos {
        Some(p) => pos_filter(row, p.deep_view()),
        None => true,
    }
}

/// With no sort column and no additional columns, a query keeps exactly the
/// sheet's default columns.
pub proof fn lemma_defaults_unless_overridden(sheet_type: SheetType)
    ensures
        insert_names(spec_default_columns(sheet_type), extra_columns(None, None))
            == spec_default_columns(sheet_type),
{
    assert(extra_columns(None, None) =~= Seq::<Seq<char>>::empty());
}

/// The columns selected by default for a sheet.
pub fn default_columns(sheet_type: SheetType) -> (r: Columns)
    ensures
        r.view() == spec_default_columns(sheet_type),
{
    let ghost rank = "rank"@;
    let ghost lemma = "lemma"@;
    let ghost word = "word"@;
    let ghost freq = "freq"@;
    let ghost texts = "#texts"@;
    proof {
        reveal_strlit("rank");
        reveal_strlit("lemma");
        reveal_strlit("freq");
        reveal_strlit("word");
        reveal_strlit("#texts");
        assert(rank[0] != lemma[0] && rank[0] != freq[0] && lemma[0] != freq[0]);
        assert(rank[0] != word[0] && rank[0] != texts[0] && word[0] != freq[0]);
        assert(word[0] != texts[0] && freq[0] != texts[0]);
    }
    let mut c = Columns::list();
    match sheet_type {
        SheetType::Third => {
            return Columns::all();
        },
        _ => {},
    }
    c.insert(String::from_str("rank"));
    assert(c.view()->Some_0 =~= seq![rank]);
    match sheet_type {
        SheetType::First | SheetType::Second => {
            c.insert(String::from_str("lemma"));
            assert(c.view()->Some_0 =~= seq![rank, lemma]);
        },
        _ => {
            c.insert(String::from_str("word"));
            assert(c.view()->Some_0 =~= seq![rank, word]);
        },
    }
    match sheet_type {
        SheetType::First => {
            c.insert(String::from_str("freq"));
            assert(c.view()->Some_0 =~= seq![rank, lemma, freq]);
        },
        SheetType::Fourth => {
            c.insert(String::from_str("freq"));
            assert(c.view()->Some_0 =~= seq![rank, word, freq]);
            c.insert(String::from_str("#texts"));
            assert(c.view()->Some_0 =~= seq![rank, word, freq, texts]);
        },
        _ => {},
    }
    c
}

/// Whether the table has a column of exactly this name.
pub fn has_column(schema: &Vec<String>, name: &String) -> (r: bool)
    ensures
        r == schema.deep_view().contains(name@),
{
    let mut i: usize = 0;
    while i < schema.len()
        invariant
            0 <= i <= schema.len(),
            forall|j: int| 0 <= j < i ==> schema.deep_view()[j] != name@,
        decreases schema.len() - i,
    {
        if schema[i] == *name {
            assert(schema.deep_view()[i as int] == name@);
            return true;
        }
        i += 1;
    }
    false
}

/// One test of `column` against `word`.
fn word_test(column: &String, word: &String, m: MatchType) -> (r: Predicate)
    requires
        m != MatchType::All,
    ensures
        forall|row: Row| #[trigger] eval(r, row) == (row.contains_key(column@) && cell_matches(row[column@], word@, m)),
{
    match m {
        MatchType::Suffix => Predicate::EndsWith(column.clone(), word.clone()),
        _ => Predicate::StartsWith(column.clone(), word.clone()),
    }
}

/// The filter that keeps rows whose `column` matches one of `words`.
pub fn word_predicate(column: &String, words: &Vec<String>, m: MatchType) -> (r: Predicate)
    requires
        m != MatchType::All ==> words.len() > 0,
    ensures
        forall|row: Row| #[trigger] eval(r, row) == word_filter(row, column@, words.deep_view(), m),
{
    let ghost ws = words.deep_view();
    if m == MatchType::All {
        let r = Predicate::InList(column.clone(), words.clone());
        assert forall|row: Row| #[trigger] eval(r, row) == word_filter(row, column@, ws, m) by {
            if eval(r, row) {
                let k = choose|k: int| 0 <= k < ws.len() && ws[k] == row[column@];
                assert(cell_matches(row[column@], ws[k], m));
            }
        }
        return r;
    }
    let mut acc = word_test(column, &words[0], m);
    assert forall|row: Row| #[trigger] eval(acc, row) == matches_any(row, column@, ws, m, 1) by {
        if eval(acc, row) {
            assert(cell_matches(row[column@], ws[0], m));
        }
    }
    let mut i: usize = 1;
    while i < words.len()
        invariant
            1 <= i <= words.len(),
            ws == words.deep_view(),
            m != MatchType::All,
            forall|row: Row| #[trigger] eval(acc, row) == matches_any(row, column@, ws, m, i as int),
        decreases words.len() - i,
    {
        let t = word_test(column, &words[i], m);
        let ghost prev = acc;
        acc = Predicate::Or(Box::new(acc), Box::new(t));
        assert forall|row: Row| #[trigger] eval(acc, row) == matches_any(row, column@, ws, m, i + 1) by {
            assert(eval(acc, row) == (eval(prev, row) || eval(t, row)));
            if eval(t, row) {
                assert(cell_matches(row[column@], ws[i as int], m));
            }
            if matches_any(row, column@, ws, m, i + 1) {
                let k = choose|k: int| 0 <= k < i + 1 && #[trigger] cell_matches(row[column@], ws[k], m);
                if k < i {
                    assert(matches_any(row, column@, ws, m, i as int));
                }
            }
        }
        i += 1;
    }
    acc
}

/// Rows to skip and the most rows to keep, when either is given; skipping
/// defaults to none.
pub fn paging(skip: Option<usize>, limit: Option<usize>) -> (r: Option<(usize, Option<usize>)>)
    ensures
        r == if skip is Some || limit is Some {
            Some((skip.unwrap_or(0), limit))
        } else {
            None
        },
{
    if skip.is_some() || limit.is_some() {
        Some((
            match skip {
                Some(s) => s,
                None => 0,
            },
            limit,
        ))
    } else {
        None
    }
}

/// Composes the query that the command-line filters ask for on a table whose
/// column names are `schema`. Checks, in order: a part-of-speech filter needs
/// a `PoS` column, the sort column must exist, each additional column must
/// exist.
#[verifier::loop_isolation(false)]
pub fn simple_query(
    schema: &Vec<String>,
    sheet_type: SheetType,
    words_and_match: Option<(&Vec<String>, MatchType)>,
    pos: Option<&Vec<String>>,
    sorted_column: Option<&String>,
    skip: Option<usize>,
    limit: Option<usize>,
    additional_columns: Option<&Vec<String>>,
) -> (r: Result<Query, Error>)
    requires
        match words_and_match {
            Some((words, m)) => m != MatchType::All ==> words.len() > 0,
            None => true,
        },
    ensures
        ({
            let cols = schema.deep_view();
            let pos_bad = pos is Some && !cols.contains(pos_column());
            let sort_bad = sorted_column is Some && !cols.contains(sorted_column->Some_0@);
            let add_bad = exists|k: int|
                0 <= k < opt_names(additional_columns).len() && !cols.contains(
                    #[trigger] opt_names(additional_columns)[k],
                );
            &&& pos_bad || sort_bad || add_bad ==> r is Err
            &&& pos_bad ==> is_arg_error(r->Err_0, pos_sheet_msg()) && r is Err
            &&& !pos_bad && sort_bad ==> is_arg_error(r->Err_0, sort_column_msg()) && r is Err
            &&& !pos_bad && !sort_bad && add_bad ==> is_arg_error(r->Err_0, select_column_msg())
                && r is Err
            &&& !pos_bad && !sort_bad && !add_bad ==> r is Ok
        }),
        r is Ok ==> ({
            let q = r->Ok_0;
            &&& q.filter is None <==> (words_and_match is None && pos is None)
            &&& q.filter is Some ==> forall|row: Row| #[trigger] eval(q.filter->Some_0, row)
                == filter_keeps(row, sheet_type, words_and_match, pos)
            &&& q.sort_by is Some <==> sorted_column is Some
            &&& q.sort_by is Some ==> q.sort_by->Some_0@ == sorted_column->Some_0@
            &&& q.page == if skip is Some || limit is Some {
                Some((skip.unwrap_or(0), limit))
            } else {
                None
            }
            &&& q.columns.view() == insert_names(
                spec_default_columns(sheet_type),
                extra_columns(sorted_column, additional_columns),
            )
        }),
{
    let mut columns = default_columns(sheet_type);
    let ghost defaults = columns.view();

    let mut filter: Option<Predicate> = None;
    if let Some((words, m)) = words_and_match {
        let column = sheet_type.search_column();
        filter = Some(word_predicate(&column, words, m));
    }
    assert(filter is Some <==> words_and_match is Some);
    assert(filter is Some ==> forall|row: Row| #[trigger] eval(filter->Some_0, row)
        == word_part(row, sheet_type, words_and_match));

    if let Some(pos) = pos {
        let pos_name = String::from_str("PoS");
        if !has_column(schema, &pos_name) {
            return Err(Error::arg("Invalid sheet type for specifying part of speech(PoS)."));
        }
        let pos_values = pos.clone();
        proof {
            assert(pos_values.deep_view() =~= pos.deep_view());
            reveal_strlit("PoS");
        }
        let pos_pred = Predicate::InList(pos_name, pos_values);
        assert(forall|row: Row| #[trigger] eval(pos_pred, row) == pos_part(row, Some(pos)));
        let ghost word_f = filter;
        filter = match filter {
            Some(f) => Some(Predicate::And(Box::new(f), Box::new(pos_pred))),
            None => Some(pos_pred),
        };
        assert forall|row: Row| #[trigger] eval(filter->Some_0, row)
            == filter_keeps(row, sheet_type, words_and_match, Some(pos)) by {
            assert(eval(pos_pred, row) == pos_part(row, Some(pos)));
            if word_f is Some {
                assert(eval(word_f->Some_0, row) == word_part(row, sheet_type, words_and_match));
            }
        }
    }

    assert(filter is None <==> (words_and_match is None && pos is None));
    assert(filter is Some ==> forall|row: Row| #[trigger] eval(filter->Some_0, row)
        == filter_keeps(row, sheet_type, words_and_match, pos));
    let mut sort_by: Option<String> = None;
    if let Some(sorted_column) = sorted_column {
        if !has_column(schema, sorted_column) {
            return Err(Error::arg("Invalid column for sorting in the specified sheet."));
        }
        columns.insert(sorted_column.clone());
        sort_by = Some(sorted_column.clone());
    }
    let ghost sort_names = match sorted_column {
        Some(c) => seq![c@],
        None => Seq::<Seq<char>>::empty(),
    };
    proof {
        assert(insert_names(defaults, Seq::<Seq<char>>::empty()) == defaults);
        if sorted_column is Some {
            assert(sort_names.drop_last() =~= Seq::<Seq<char>>::empty());
            assert(sort_names.last() == sorted_column->Some_0@);
            assert(insert_names(defaults, sort_names.drop_last()) == defaults);
        }
        assert(columns.view() == insert_names(defaults, sort_names));
        assert(sort_names =~= sort_names + Seq::<Seq<char>>::empty());
        assert(sort_names + Seq::<Seq<char>>::empty() == extra_columns(sorted_column, None));
    }

    let page = paging(skip, limit);

    if let Some(additional) = additional_columns {
        let ghost add = additional.deep_view();
        assert(opt_names(additional_columns) == add);
        let mut i: usize = 0;
        while i < additional.len()
            invariant
                0 <= i <= additional.len(),
                add == additional.deep_view(),
                opt_names(additional_columns) == add,
                forall|k: int| 0 <= k < i ==> schema.deep_view().contains(#[trigger] add[k]),
                columns.view() == insert_names(defaults, sort_names + add.take(i as int)),
            decreases additional.len() - i,
        {
            if !has_column(schema, &additional[i]) {
                assert(opt_names(additional_columns)[i as int] == add[i as int]);
                return Err(Error::arg("Invalid column for select in the specified sheet."));
            }
            columns.insert(additional[i].clone());
            assert((sort_names + add.take(i + 1)).drop_last() =~= sort_names + add.take(i as int));
            assert((sort_names + add.take(i + 1)).last() == add[i as int]);
            i += 1;
        }
        assert(add.take(add.len() as int) =~= add);
        assert(add.take(0) =~= Seq::<Seq<char>>::empty());
    }

    Ok(Query { filter, sort_by, page, columns })
}

} // verus!
