use vstd::prelude::*;

use crate::error::CustomError;

verus! {

/// The four worksheets of the corpus, each converted to its own CSV table.
#[derive(Debug, Clone, Copy, PartialEq, Eq, Structural)]
pub enum SheetType {
    First,
    Second,
    Third,
    Fourth,
}

/// How search words are matched against a sheet's searchable column.
#[derive(Debug, Clone, Copy, PartialEq, Eq, Structural)]
pub enum MatchType {
    All,
    Prefix,
    Suffix,
}

pub open spec fn spec_file_name(s: SheetType) -> Seq<char> {
    match s {
        SheetType::First => "wordFrequencyFirst.csv"@,
        SheetType::Second => "wordFrequencySecond.csv"@,
        SheetType::Third => "wordFrequencyThird.csv"@,
        SheetType::Fourth => "wordFrequencyFourth.csv"@,
    }
}

pub open spec fn spec_sheet_name(s: SheetType) -> Seq<char> {
    match s {
        SheetType::First => "1 lemmas"@,
        SheetType::Second => "2 subgenres"@,
        SheetType::Third => "3 wordForms"@,
        SheetType::Fourth => "4 forms (219k)"@,
    }
}

pub open spec fn spec_table_name(s: SheetType) -> Seq<char> {
    match s {
        SheetType::First => "lemmas"@,
        SheetType::Second => "subgenres"@,
        SheetType::Third => "wordForms"@,
        SheetType::Fourth => "forms"@,
    }
}

/// The column that search words are matched against.
pub open spec fn spec_search_column(s: SheetType) -> Seq<char> {
    match s {
        SheetType::First | SheetType::Second => "lemma"@,
        SheetType::Third | SheetType::Fourth => "word"@,
    }
}

/// The sheet a 1-based sheet number stands for.
pub open spec fn spec_sheet_of(n: nat) -> Option<SheetType> {
    if n == 1 {
        Some(SheetType::First)
    } else if n == 2 {
        Some(SheetType::Second)
    } else if n == 3 {
        Some(SheetType::Third)
    } else if n == 4 {
        Some(SheetType::Fourth)
    } else {
        None
    }
}

pub open spec fn invalid_sheet_number_msg() -> Seq<char> {
    "Invalid usize for converting into DataSourceType."@
}

impl SheetType {
    /// Name of the CSV file that holds this sheet.
    pub fn file_name(&self) -> (r: String)
        ensures
            r@ == spec_file_name(*self),
    {
        match self {
            SheetType::First => String::from_str("wordFrequencyFirst.csv"),
            SheetType::Second => String::from_str("wordFrequencySecond.csv"),
            SheetType::Third => String::from_str("wordFrequencyThird.csv"),
            SheetType::Fourth => String::from_str("wordFrequencyFourth.csv"),
        }
    }

    /// Name of the worksheet in the source workbook.
    pub fn sheet_name(&self) -> (r: String)
        ensures
            r@ == spec_sheet_name(*self),
    {
        match self {
            SheetType::First => String::from_str("1 lemmas"),
            SheetType::Second => String::from_str("2 subgenres"),
            SheetType::Third => String::from_str("3 wordForms"),
            SheetType::Fourth => String::from_str("4 forms (219k)"),
        }
    }

    /// Name under which the sheet is registered as a SQL table.
    pub fn table_name(&self) -> (r: String)
        ensures
            r@ == spec_table_name(*self),
    {
        match self {
            SheetType::First => String::from_str("lemmas"),
            SheetType::Second => String::from_str("subgenres"),
            SheetType::Third => String::from_str("wordForms"),
            SheetType::Fourth => String::from_str("forms"),
        }
    }

    /// Name of the column that search words are matched against.
    pub fn search_column(&self) -> (r: String)
        ensures
            r@ == spec_search_column(*self),
    {
        match self {
            SheetType::First | SheetType::Second => String::from_str("lemma"),
            SheetType::Third | SheetType::Fourth => String::from_str("word"),
        }
    }

    /// The sheet with the given 1-based number; any other number is refused.
    pub fn from_number(value: usize) -> (r: Result<SheetType, CustomError>)
        ensures
            spec_sheet_of(value as nat) is Some ==> r == Ok::<SheetType, CustomError>(
                spec_sheet_of(value as nat).unwrap(),
            ),
            spec_sheet_of(value as nat) is None ==> r is Err && r->Err_0.msg@
                == invalid_sheet_number_msg() && r->Err_0.inner is None,
    {
        match value {
            1 => Ok(SheetType::First),
            2 => Ok(SheetType::Second),
            3 => Ok(SheetType::Third),
            4 => Ok(SheetType::Fourth),
            _ => Err(CustomError::msg("Invalid usize for converting into DataSourceType.")),
        }
    }
}

} // verus!
