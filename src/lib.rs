//! Query composition and conversion logic for a word-frequency corpus kept as
//! four CSV tables: which rows a command-line search keeps, in what order and
//! with which columns, and how a worksheet is written as CSV.

pub mod cli;
pub mod columns;
pub mod csv;
pub mod engine;
pub mod error;
pub mod query;
pub mod sheet;

pub use columns::Columns;
pub use error::{CustomError, Error};
pub use sheet::{MatchType, SheetType};
