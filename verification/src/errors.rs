//! The ways a run can fail, the text shown for each, and the status the
//! process ends with.

use vstd::prelude::*;
use vstd::string::*;

verus! {

/// Why a run did not complete.
#[derive(Debug, Clone, PartialEq, Eq)]
pub enum AppError {
    /// The command line could not be parsed; holds the parser's explanation.
    ConfigParseError(String),
    /// The pattern is empty once surrounding whitespace is removed.
    PatternRequired,
    /// The pattern was refused; holds the reason.
    InvalidPattern(String),
    /// Arguments that the program does not know; holds them.
    UnknownArguments(String),
    /// A named input is not an existing regular file; holds its path.
    InvalidFile(String),
    /// An input could not be opened.
    ErrorOpeningFile,
    /// Opening or reading an input failed; holds the system's message.
    Io(String),
}

/// An [`AppError`] with its texts as character sequences.
pub enum ErrorView {
    ConfigParseError(Seq<char>),
    PatternRequired,
    InvalidPattern(Seq<char>),
    UnknownArguments(Seq<char>),
    InvalidFile(Seq<char>),
    ErrorOpeningFile,
    Io(Seq<char>),
}

/// Status of a run that completed.
pub const EXIT_SUCCESS: u8 = 0;

/// Status of a run that stopped on a failure to open or read an input.
pub const EXIT_IO: u8 = 1;

/// Status of a run that was refused before any input was opened.
pub const EXIT_USAGE: u8 = 2;

impl ErrorView {
    /// The error was found while the command line was checked, before any
    /// input was opened.
    pub open spec fn is_usage(self) -> bool {
        !(self is ErrorOpeningFile || self is Io)
    }

    /// The status with which the process ends on this error.
    pub open spec fn status(self) -> u8 {
        if self.is_usage() {
            EXIT_USAGE
        } else {
            EXIT_IO
        }
    }

    /// The single line shown to the user for this error.
    pub open spec fn text(self) -> Seq<char> {
        match self {
            ErrorView::ConfigParseError(detail) => "Config error: "@ + detail,
            ErrorView::PatternRequired => "Search pattern is required"@,
            ErrorView::InvalidPattern(detail) => "Invalid search pattern error: "@ + detail,
            ErrorView::UnknownArguments(detail) => "Unknown argument(s): "@ + detail,
            ErrorView::InvalidFile(path) => "Invalid file: "@ + path,
            ErrorView::ErrorOpeningFile => "Error opening file"@,
            ErrorView::Io(message) => message,
        }
    }
}

impl View for AppError {
    type V = ErrorView;

    open spec fn view(&self) -> ErrorView {
        match self {
            AppError::ConfigParseError(detail) => ErrorView::ConfigParseError(detail@),
            AppError::PatternRequired => ErrorView::PatternRequired,
            AppError::InvalidPattern(detail) => ErrorView::InvalidPattern(detail@),
            AppError::UnknownArguments(detail) => ErrorView::UnknownArguments(detail@),
            AppError::InvalidFile(path) => ErrorView::InvalidFile(path@),
            AppError::ErrorOpeningFile => ErrorView::ErrorOpeningFile,
            AppError::Io(message) => ErrorView::Io(message@),
        }
    }
}

impl AppError {
    /// The status with which the process ends on this error: `EXIT_USAGE`
    /// for every error found while the command line is checked, `EXIT_IO`
    /// for a failure to open or read an input.
    pub fn exit_code(&self) -> (code: u8)
        ensures
            code == self@.status(),
            code != EXIT_SUCCESS,
    {
        match self {
            AppError::ErrorOpeningFile => EXIT_IO,
            AppError::Io(_) => EXIT_IO,
            _ => EXIT_USAGE,
        }
    }

    /// The single line shown to the user for this error.
    pub fn message(&self) -> (line: String)
        ensures
            line@ == self@.text(),
    {
        match self {
            AppError::ConfigParseError(detail) => String::from_str("Config error: ").concat(
                detail.as_str(),
            ),
            AppError::PatternRequired => String::from_str("Search pattern is required"),
            AppError::InvalidPattern(detail) => String::from_str(
                "Invalid search pattern error: ",
            ).concat(detail.as_str()),
            AppError::UnknownArguments(detail) => String::from_str("Unknown argument(s): ").concat(
                detail.as_str(),
            ),
            AppError::InvalidFile(path) => String::from_str("Invalid file: ").concat(
                path.as_str(),
            ),
            AppError::ErrorOpeningFile => String::from_str("Error opening file"),
            AppError::Io(message) => message.clone(),
        }
    }
}

} // verus!
