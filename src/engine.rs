use vstd::prelude::*;

use datafusion::error::DataFusionError;
use datafusion::functions::expr_fn::{ends_with, starts_with};
use datafusion::logical_expr::SortExpr;
use datafusion::prelude::{ident, in_list, lit, DataFrame, Expr};

use crate::error::{CustomError, Error};
use crate::query::{Predicate, Query};

verus! {

#[verifier::external_type_specification]
#[verifier::external_body]
pub struct ExDataFrame(DataFrame);

#[verifier::external_type_specification]
#[verifier::external_body]
pub struct ExExpr(Expr);

#[verifier::external_type_specification]
#[verifier::external_body]
pub struct ExSortExpr(SortExpr);

#[verifier::external_type_specification]
#[verifier::external_body]
pub struct ExDataFusionError(DataFusionError);

/// What datafusion's `ident` builds for a column name.
pub uninterp spec fn column_of(name: Seq<char>) -> Expr;

/// What datafusion's `lit` builds for a string.
pub uninterp spec fn literal_of(s: Seq<char>) -> Expr;

/// What datafusion's `in_list` builds.
pub uninterp spec fn in_list_of(e: Expr, list: Seq<Expr>, negated: bool) -> Expr;

/// What datafusion's `starts_with` builds.
pub uninterp spec fn starts_with_of(s: Expr, prefix: Expr) -> Expr;

/// What datafusion's `ends_with` builds.
pub uninterp spec fn ends_with_of(s: Expr, suffix: Expr) -> Expr;

/// What datafusion's `Expr::or` builds.
pub uninterp spec fn or_of(a: Expr, b: Expr) -> Expr;

/// What datafusion's `Expr::and` builds.
pub uninterp spec fn and_of(a: Expr, b: Expr) -> Expr;

/// What datafusion's `Expr::sort` builds.
pub uninterp spec fn sort_of(e: Expr, asc: bool, nulls_first: bool) -> SortExpr;

/// The table datafusion's `DataFrame::filter` plans, when it succeeds.
pub uninterp spec fn filtered_frame(df: DataFrame, predicate: Expr) -> DataFrame;

/// The table datafusion's `DataFrame::sort` plans, when it succeeds.
pub uninterp spec fn sorted_frame(df: DataFrame, by: Seq<SortExpr>) -> DataFrame;

/// The table datafusion's `DataFrame::limit` plans, when it succeeds.
pub uninterp spec fn limited_frame(df: DataFrame, skip: usize, fetch: Option<usize>) -> DataFrame;

/// The table datafusion's `DataFrame::select` plans, when it succeeds.
pub uninterp spec fn selected_frame(df: DataFrame, columns: Seq<Expr>) -> DataFrame;

/// Relies on datafusion's `ident`: the column of exactly this name.
#[verifier::external_body]
fn column_expr(name: &str) -> (r: Expr)
    ensures
        r == column_of(name@),
{
    ident(name)
}

/// Relies on datafusion's `lit`: a string literal.
#[verifier::external_body]
fn text_literal(s: &str) -> (r: Expr)
    ensures
        r == literal_of(s@),
{
    lit(s)
}

/// Relies on datafusion's `in_list`: membership of `e` in `list`.
#[verifier::external_body]
fn in_list_expr(e: Expr, list: Vec<Expr>, negated: bool) -> (r: Expr)
    ensures
        r == in_list_of(e, list@, negated),
{
    in_list(e, list, negated)
}

/// Relies on datafusion's `starts_with`: whether `s` starts with `prefix`.
#[verifier::external_body]
fn starts_with_expr(s: Expr, prefix: Expr) -> (r: Expr)
    ensures
        r == starts_with_of(s, prefix),
{
    starts_with(s, prefix)
}

/// Relies on datafusion's `ends_with`: whether `s` ends with `suffix`.
#[verifier::external_body]
fn ends_with_expr(s: Expr, suffix: Expr) -> (r: Expr)
    ensures
        r == ends_with_of(s, suffix),
{
    ends_with(s, suffix)
}

/// Relies on datafusion's `Expr::or`.
#[verifier::external_body]
fn or_expr(a: Expr, b: Expr) -> (r: Expr)
    ensures
        r == or_of(a, b),
{
    a.or(b)
}

/// Relies on datafusion's `Expr::and`.
#[verifier::external_body]
fn and_expr(a: Expr, b: Expr) -> (r: Expr)
    ensures
        r == and_of(a, b),
{
    a.and(b)
}

/// Relies on datafusion's `Expr::sort`.
#[verifier::external_body]
fn sort_expr(e: Expr, asc: bool, nulls_first: bool) -> (r: SortExpr)
    ensures
        r == sort_of(e, asc, nulls_first),
{
    e.sort(asc, nulls_first)
}

/// Relies on datafusion's `DataFrame::filter`.
#[verifier::external_body]
fn df_filter(df: DataFrame, e: Expr) -> (r: Result<DataFrame, DataFusionError>)
    ensures
        r is Ok ==> r->Ok_0 == filtered_frame(df, e),
{
    df.filter(e)
}

/// Relies on datafusion's `DataFrame::sort`.
#[verifier::external_body]
fn df_sort(df: DataFrame, by: Vec<SortExpr>) -> (r: Result<DataFrame, DataFusionError>)
    ensures
        r is Ok ==> r->Ok_0 == sorted_frame(df, by@),
{
    df.sort(by)
}

/// Relies on datafusion's `DataFrame::limit`.
#[verifier::external_body]
fn df_limit(df: DataFrame, skip: usize, fetch: Option<usize>) -> (r: Result<DataFrame, DataFusionError>)
    ensures
        r is Ok ==> r->Ok_0 == limited_frame(df, skip, fetch),
{
    df.limit(skip, fetch)
}

/// Relies on datafusion's `DataFrame::select`.
#[verifier::external_body]
fn df_select(df: DataFrame, columns: Vec<Expr>) -> (r: Result<DataFrame, DataFusionError>)
    ensures
        r is Ok ==> r->Ok_0 == selected_frame(df, columns@),
{
    df.select(columns)
}

/// Relies on the `Display` of datafusion's `DataFusionError`.
#[verifier::external_body]
fn engine_error_text(e: &DataFusionError) -> String {
    e.to_string()
}

fn engine_error(e: DataFusionError) -> (r: Error)
    ensures
        r is DataFrameError,
{
    let t = engine_error_text(&e);
    Error::DataFrameError(CustomError::msg(t.as_str()))
}

/// The engine expression of a filter.
pub open spec fn expr_of(p: Predicate) -> Expr
    decreases p,
{
    match p {
        Predicate::InList(c, values) => in_list_of(
            column_of(c@),
            values@.map_values(|v: String| literal_of(v@)),
            false,
        ),
        Predicate::StartsWith(c, v) => starts_with_of(column_of(c@), literal_of(v@)),
        Predicate::EndsWith(c, v) => ends_with_of(column_of(c@), literal_of(v@)),
        Predicate::Or(a, b) => or_of(expr_of(*a), expr_of(*b)),
        Predicate::And(a, b) => and_of(expr_of(*a), expr_of(*b)),
    }
}

/// The engine's order for a sort column: descending, nulls last.
pub open spec fn sort_key(column: Seq<char>) -> SortExpr {
    sort_of(column_of(column), false, false)
}

/// The table a query plans from `df`: filter, descending sort with nulls
/// last, skip and limit, projection, each step only when asked for.
pub open spec fn query_frame(df: DataFrame, q: Query) -> DataFrame {
    let filtered = match q.filter {
        Some(f) => filtered_frame(df, expr_of(f)),
        None => df,
    };
    let sorted = match q.sort_by {
        Some(c) => sorted_frame(filtered, seq![sort_key(c@)]),
        None => filtered,
    };
    let paged = match q.page {
        Some((skip, fetch)) => limited_frame(sorted, skip, fetch),
        None => sorted,
    };
    match q.columns.view() {
        Some(names) => selected_frame(paged, names.map_values(|n: Seq<char>| column_of(n))),
        None => paged,
    }
}

/// The engine's expression for a filter.
pub fn to_expr(p: &Predicate) -> (r: Expr)
    ensures
        r == expr_of(*p),
    decreases p,
{
    match p {
        Predicate::InList(c, values) => {
            let mut list: Vec<Expr> = Vec::new();
            let mut i: usize = 0;
            while i < values.len()
                invariant
                    0 <= i <= values.len(),
                    list@ =~= values@.take(i as int).map_values(|v: String| literal_of(v@)),
                decreases values.len() - i,
            {
                list.push(text_literal(values[i].as_str()));
                i += 1;
            }
            assert(values@.take(values.len() as int) =~= values@);
            in_list_expr(column_expr(c.as_str()), list, false)
        },
        Predicate::StartsWith(c, v) => starts_with_expr(column_expr(c.as_str()), text_literal(v.as_str())),
        Predicate::EndsWith(c, v) => ends_with_expr(column_expr(c.as_str()), text_literal(v.as_str())),
        Predicate::Or(a, b) => or_expr(to_expr(a), to_expr(b)),
        Predicate::And(a, b) => and_expr(to_expr(a), to_expr(b)),
    }
}

/// Applies a composed query to a table, in its order: filter, descending
/// sort with nulls last, skip and limit, projection. Any failure of the
/// engine is a `DataFrameError`.
pub fn apply(df: DataFrame, q: &Query) -> (r: Result<DataFrame, Error>)
    ensures
        r is Err ==> r->Err_0 is DataFrameError,
        r is Ok ==> r->Ok_0 == query_frame(df, *q),
        q.filter is None && q.sort_by is None && q.page is None && q.columns.view() is None ==> r
            == Ok::<DataFrame, Error>(df),
{
    let mut df = df;
    if let Some(f) = &q.filter {
        df = match df_filter(df, to_expr(f)) {
            Ok(d) => d,
            Err(e) => return Err(engine_error(e)),
        };
    }
    if let Some(c) = &q.sort_by {
        let mut by: Vec<SortExpr> = Vec::new();
        by.push(sort_expr(column_expr(c.as_str()), false, false));
        assert(by@ =~= seq![sort_key(c@)]);
        df = match df_sort(df, by) {
            Ok(d) => d,
            Err(e) => return Err(engine_error(e)),
        };
    }
    if let Some((skip, limit)) = q.page {
        df = match df_limit(df, skip, limit) {
            Ok(d) => d,
            Err(e) => return Err(engine_error(e)),
        };
    }
    if let Some(names) = q.columns.names() {
        let ghost ns = names.deep_view();
        let mut columns: Vec<Expr> = Vec::new();
        let mut i: usize = 0;
        while i < names.len()
            invariant
                0 <= i <= names.len(),
                ns == names.deep_view(),
                columns@ =~= ns.take(i as int).map_values(|n: Seq<char>| column_of(n)),
            decreases names.len() - i,
        {
            columns.push(column_expr(names[i].as_str()));
            i += 1;
        }
        assert(ns.take(ns.len() as int) =~= ns);
        df = match df_select(df, columns) {
            Ok(d) => d,
            Err(e) => return Err(engine_error(e)),
        };
    }
    Ok(df)
}

/// Skips and limits the rows of a table when either is given, skipping none
/// by default; the table is unchanged when neither is given.
pub fn page(df: DataFrame, skip: Option<usize>, limit: Option<usize>) -> (r: Result<DataFrame, Error>)
    ensures
        r is Err ==> r->Err_0 is DataFrameError,
        skip is None && limit is None ==> r == Ok::<DataFrame, Error>(df),
        r is Ok && (skip is Some || limit is Some) ==> r->Ok_0 == limited_frame(
            df,
            skip.unwrap_or(0),
            limit,
        ),
{
    match crate::query::paging(skip, limit) {
        Some((skip, limit)) => match df_limit(df, skip, limit) {
            Ok(d) => Ok(d),
            Err(e) => Err(engine_error(e)),
        },
        None => Ok(df),
    }
}

} // verus!
