//! Errors reported by the crate.

use vstd::prelude::*;
use vstd::string::*;

verus! {

/// What can go wrong while scanning or counting. Each variant carries the
/// detail text of the failure.
#[derive(Debug)]
pub enum AppError {
    IoError(String),
    InvalidPath(String),
    TokenizerError(String),
    DirectoryScanError(String),
    FileReadError(String),
    ClipboardError(String),
    DialogError(String),
}

pub type AppResult<T> = Result<T, AppError>;

impl AppError {
    /// The fixed text that introduces each kind of error.
    pub open spec fn prefix(&self) -> Seq<char> {
        match self {
            AppError::IoError(_) => "IO error: "@,
            AppError::InvalidPath(_) => "Invalid path: "@,
            AppError::TokenizerError(_) => "Tokenizer error: "@,
            AppError::DirectoryScanError(_) => "Directory scan error: "@,
            AppError::FileReadError(_) => "File read error: "@,
            AppError::ClipboardError(_) => "Clipboard error: "@,
            AppError::DialogError(_) => "Dialog error: "@,
        }
    }

    /// The detail text carried by the error.
    pub open spec fn detail(&self) -> Seq<char> {
        match self {
            AppError::IoError(s) => s@,
            AppError::InvalidPath(s) => s@,
            AppError::TokenizerError(s) => s@,
            AppError::DirectoryScanError(s) => s@,
            AppError::FileReadError(s) => s@,
            AppError::ClipboardError(s) => s@,
            AppError::DialogError(s) => s@,
        }
    }

    /// The text shown to a user: the prefix of the kind, then the detail.
    pub fn message(&self) -> (text: String)
        ensures
            text@ == self.prefix() + self.detail(),
    {
        match self {
            AppError::IoError(s) => String::from_str("IO error: ").concat(s.as_str()),
            AppError::InvalidPath(s) => String::from_str("Invalid path: ").concat(s.as_str()),
            AppError::TokenizerError(s) => String::from_str("Tokenizer error: ").concat(s.as_str()),
            AppError::DirectoryScanError(s) => String::from_str("Directory scan error: ").concat(
                s.as_str(),
            ),
            AppError::FileReadError(s) => String::from_str("File read error: ").concat(s.as_str()),
            AppError::ClipboardError(s) => String::from_str("Clipboard error: ").concat(s.as_str()),
            AppError::DialogError(s) => String::from_str("Dialog error: ").concat(s.as_str()),
        }
    }
}

} // verus!
