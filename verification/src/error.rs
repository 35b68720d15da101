//! The error model: every failure aborts the current operation and is
//! returned with enough context (table name, offending row) to locate the
//! bad input line.

use vstd::prelude::*;

verus! {

/// The header names and raw field values of the row on which a table decode
/// failed. The values are empty when the failure came before a row was
/// tokenized; otherwise they are normalized to the header's length.
#[derive(Debug)]
pub struct LineError {
    pub headers: Vec<String>,
    pub values: Vec<String>,
}

/// The mathematical shape of a [`LineError`].
pub ghost struct LineErrorV {
    pub headers: Seq<Seq<char>>,
    pub values: Seq<Seq<char>>,
}

impl DeepView for LineError {
    type V = LineErrorV;

    open spec fn deep_view(&self) -> LineErrorV {
        LineErrorV { headers: self.headers.deep_view(), values: self.values.deep_view() }
    }
}

#[derive(Debug)]
pub enum Error {
    /// A requested table is absent from the archive's index.
    FileNotFound(String),
    /// An archive entry could not be read.
    FileReadError { filename: String, message: String },
    /// A table failed to tokenize or decode; carries the offending row when known.
    CSVError { filename: String, source: Box<Error>, line_in_error: Option<LineError> },
    /// The archive container itself is malformed.
    Zip(String),
    /// A path that is neither a file nor a directory was handed in.
    NotFileOrDirectory(String),
    /// A field's text is not a six-digit hexadecimal color.
    InvalidColor(String),
    /// A field's text is not an `H:MM:SS` clock time.
    InvalidTime(String),
    /// A foreign key names an identifier that no record carries.
    ReferenceError(String),
    /// A field's text is not a number, or is out of range.
    InvalidNumber(String),
    /// A field's text lies outside its encoding.
    InvalidValue(String),
    /// A required column is absent from the header or the row.
    MissingField(String),
    /// The tabular text could not be tokenized into rows.
    CSVParseError(String),
}

/// The mathematical shape of an [`Error`].
pub ghost enum ErrorV {
    FileNotFound(Seq<char>),
    FileReadError { filename: Seq<char>, message: Seq<char> },
    CSVError { filename: Seq<char>, source: Box<ErrorV>, line_in_error: Option<LineErrorV> },
    Zip(Seq<char>),
    NotFileOrDirectory(Seq<char>),
    InvalidColor(Seq<char>),
    InvalidTime(Seq<char>),
    ReferenceError(Seq<char>),
    InvalidNumber(Seq<char>),
    InvalidValue(Seq<char>),
    MissingField(Seq<char>),
    CSVParseError(Seq<char>),
}

pub open spec fn error_view(e: Error) -> ErrorV
    decreases e,
{
    match e {
        Error::FileNotFound(s) => ErrorV::FileNotFound(s@),
        Error::FileReadError { filename, message } => ErrorV::FileReadError {
            filename: filename@,
            message: message@,
        },
        Error::CSVError { filename, source, line_in_error } => ErrorV::CSVError {
            filename: filename@,
            source: Box::new(error_view(*source)),
            line_in_error: match line_in_error {
                Some(le) => Some(le.deep_view()),
                None => None,
            },
        },
        Error::Zip(s) => ErrorV::Zip(s@),
        Error::NotFileOrDirectory(s) => ErrorV::NotFileOrDirectory(s@),
        Error::InvalidColor(s) => ErrorV::InvalidColor(s@),
        Error::InvalidTime(s) => ErrorV::InvalidTime(s@),
        Error::ReferenceError(s) => ErrorV::ReferenceError(s@),
        Error::InvalidNumber(s) => ErrorV::InvalidNumber(s@),
        Error::InvalidValue(s) => ErrorV::InvalidValue(s@),
        Error::MissingField(s) => ErrorV::MissingField(s@),
        Error::CSVParseError(s) => ErrorV::CSVParseError(s@),
    }
}

impl DeepView for Error {
    type V = ErrorV;

    open spec fn deep_view(&self) -> ErrorV {
        error_view(*self)
    }
}

impl Error {
    /// A short label for the error's kind, for reporting by callers.
    pub fn kind(&self) -> (r: &'static str)
        ensures
            r@ == match self.deep_view() {
                ErrorV::FileNotFound(_) => "file not found"@,
                ErrorV::FileReadError { .. } => "file read error"@,
                ErrorV::CSVError { .. } => "table decode error"@,
                ErrorV::Zip(_) => "container error"@,
                ErrorV::NotFileOrDirectory(_) => "not a file or directory"@,
                ErrorV::InvalidColor(_) => "invalid color"@,
                ErrorV::InvalidTime(_) => "invalid time"@,
                ErrorV::ReferenceError(_) => "reference error"@,
                ErrorV::InvalidNumber(_) => "invalid number"@,
                ErrorV::InvalidValue(_) => "invalid value"@,
                ErrorV::MissingField(_) => "missing field"@,
                ErrorV::CSVParseError(_) => "tokenize error"@,
            },
{
        match self {
            Error::FileNotFound(_) => "file not found",
            Error::FileReadError { .. } => "file read error",
            Error::CSVError { .. } => "table decode error",
            Error::Zip(_) => "container error",
            Error::NotFileOrDirectory(_) => "not a file or directory",
            Error::InvalidColor(_) => "invalid color",
            Error::InvalidTime(_) => "invalid time",
            Error::ReferenceError(_) => "reference error",
            Error::InvalidNumber(_) => "invalid number",
            Error::InvalidValue(_) => "invalid value",
            Error::MissingField(_) => "missing field",
            Error::CSVParseError(_) => "tokenize error",
        }
    }
}

} // verus!
