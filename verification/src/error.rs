//! The ways in which an operation on an env file fails, and what each tells the user.

use vstd::prelude::*;
use vstd::string::StringExecFns;

verus! {

/// Why an operation on an env file failed.
#[derive(Debug, PartialEq, Eq)]
pub enum EnvError {
    /// The file at `path` could not be opened for reading.
    FileOpen { path: String },
    /// No line of the file at `path` stores the key that was asked for.
    KeyNotFound { path: String },
    /// A line of the file at `path` could not be read.
    LineRead { path: String },
    /// The temporary file could not be created (no `cause`) or could not be written to.
    RewriteWrite { cause: Option<String> },
    /// The target could not be replaced by the temporary file, for `reason`.
    RewriteCommit { reason: String },
}

/// The mathematical content of an `EnvError`.
pub enum ErrorView {
    FileOpen { path: Seq<char> },
    KeyNotFound { path: Seq<char> },
    LineRead { path: Seq<char> },
    RewriteWrite { cause: Option<Seq<char>> },
    RewriteCommit { reason: Seq<char> },
}

impl View for EnvError {
    type V = ErrorView;

    open spec fn view(&self) -> ErrorView {
        match self {
            EnvError::FileOpen { path } => ErrorView::FileOpen { path: path@ },
            EnvError::KeyNotFound { path } => ErrorView::KeyNotFound { path: path@ },
            EnvError::LineRead { path } => ErrorView::LineRead { path: path@ },
            EnvError::RewriteWrite { cause } => ErrorView::RewriteWrite {
                cause: match cause {
                    Some(text) => Some(text@),
                    None => None,
                },
            },
            EnvError::RewriteCommit { reason } => ErrorView::RewriteCommit { reason: reason@ },
        }
    }
}

impl ErrorView {
    /// The text that tells a user of the failure.
    pub open spec fn message(self) -> Seq<char> {
        match self {
            ErrorView::FileOpen { path } => "Failed to open the file: "@ + path,
            ErrorView::KeyNotFound { path } => "Not found key in env file: "@ + path,
            ErrorView::LineRead { path } => "Failed to read a line in env file: "@ + path,
            ErrorView::RewriteWrite { cause: Some(cause) } => "Failed to write the file for rewrite: "@
                + cause,
            ErrorView::RewriteWrite { cause: None } => "Failed to open the tempfile for rewrite"@,
            ErrorView::RewriteCommit { reason } => "Failed to write the file for rewrite: "@ + reason,
        }
    }
}

impl EnvError {
    /// The text that tells a user of the failure.
    pub fn message(&self) -> (text: String)
        ensures
            text@ == self@.message(),
    {
        match self {
            EnvError::FileOpen { path } => String::from_str("Failed to open the file: ").concat(
                path.as_str(),
            ),
            EnvError::KeyNotFound { path } => String::from_str(
                "Not found key in env file: ",
            ).concat(path.as_str()),
            EnvError::LineRead { path } => String::from_str(
                "Failed to read a line in env file: ",
            ).concat(path.as_str()),
            EnvError::RewriteWrite { cause: Some(cause) } => String::from_str(
                "Failed to write the file for rewrite: ",
            ).concat(cause.as_str()),
            EnvError::RewriteWrite { cause: None } => String::from_str(
                "Failed to open the tempfile for rewrite",
            ),
            EnvError::RewriteCommit { reason } => String::from_str(
                "Failed to write the file for rewrite: ",
            ).concat(reason.as_str()),
        }
    }
}

} // verus!
