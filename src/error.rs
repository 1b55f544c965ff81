use vstd::prelude::*;

verus! {

/// A message, optionally with the text of the error that caused it.
#[derive(Debug, Clone)]
pub struct CustomError {
    pub msg: String,
    pub inner: Option<String>,
}

/// What a `CustomError` reads as when shown to a user.
pub open spec fn custom_error_text(e: CustomError) -> Seq<char> {
    match e.inner {
        Some(inner) => "msg: "@ + e.msg@ + ", inner: "@ + inner@,
        None => e.msg@,
    }
}

impl CustomError {
    /// An error that carries only a message.
    pub fn msg(s: &str) -> (r: CustomError)
        ensures
            r.msg@ == s@,
            r.inner is None,
    {
        CustomError { msg: String::from_str(s), inner: None }
    }

    /// An error that carries a message and the text of its cause.
    pub fn new(s: &str, inner: &str) -> (r: CustomError)
        ensures
            r.msg@ == s@,
            r.inner is Some,
            r.inner->Some_0@ == inner@,
    {
        CustomError { msg: String::from_str(s), inner: Some(String::from_str(inner)) }
    }

    /// The text shown to a user.
    pub fn text(&self) -> (r: String)
        ensures
            r@ == custom_error_text(*self),
    {
        match &self.inner {
            Some(inner) => {
                let mut r = String::from_str("msg: ");
                r.append(self.msg.as_str());
                r.append(", inner: ");
                r.append(inner.as_str());
                r
            },
            None => self.msg.clone(),
        }
    }
}

/// The four classes of failure of the command-line tools.
#[derive(Debug, Clone)]
pub enum Error {
    /// Invalid command-line arguments.
    ArgError(CustomError),
    /// Missing or unreadable files.
    IOError(CustomError),
    /// A malformed workbook.
    XlsxError(CustomError),
    /// A failure of the query engine.
    DataFrameError(CustomError),
}

pub open spec fn error_prefix(e: Error) -> Seq<char> {
    match e {
        Error::ArgError(_) => "ArgError: Error related on cli arguments occurred. "@,
        Error::IOError(_) => "IOError: Error related on file-IO occurred. "@,
        Error::XlsxError(_) => "XlsxError: Error related on handling xlsx file occurred. "@,
        Error::DataFrameError(_) => "DataFrameError: Error related on dataframe occurred. "@,
    }
}

pub open spec fn error_cause(e: Error) -> CustomError {
    match e {
        Error::ArgError(c) => c,
        Error::IOError(c) => c,
        Error::XlsxError(c) => c,
        Error::DataFrameError(c) => c,
    }
}

/// What an `Error` reads as when shown to a user.
pub open spec fn error_text(e: Error) -> Seq<char> {
    error_prefix(e) + custom_error_text(error_cause(e))
}

/// An argument error with the given message and no cause.
pub open spec fn is_arg_error(e: Error, msg: Seq<char>) -> bool {
    &&& e is ArgError
    &&& e->ArgError_0.msg@ == msg
    &&& e->ArgError_0.inner is None
}

impl Error {
    /// The text shown to a user.
    pub fn text(&self) -> (r: String)
        ensures
            r@ == error_text(*self),
    {
        let (mut r, cause) = match self {
            Error::ArgError(c) => (
                String::from_str("ArgError: Error related on cli arguments occurred. "),
                c,
            ),
            Error::IOError(c) => (String::from_str("IOError: Error related on file-IO occurred. "), c),
            Error::XlsxError(c) => (
                String::from_str("XlsxError: Error related on handling xlsx file occurred. "),
                c,
            ),
            Error::DataFrameError(c) => (
                String::from_str("DataFrameError: Error related on dataframe occurred. "),
                c,
            ),
        };
        let t = cause.text();
        r.append(t.as_str());
        r
    }

    /// An argument error with the given message.
    pub fn arg(msg: &str) -> (r: Error)
        ensures
            is_arg_error(r, msg@),
    {
        Error::ArgError(CustomError::msg(msg))
    }
}

} // verus!
