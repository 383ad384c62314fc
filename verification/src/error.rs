//! The errors that the daemon's collaborators report.

use vstd::prelude::*;

use crate::text::prefixed;

verus! {

/// What went wrong in an operation on the connection store, on a tunnel or on
/// the way to them.
#[derive(Debug)]
pub enum AppError {
    /// A document could not be read or written as JSON.
    Json(String),
    /// An operation of the operating system failed; `would_block` tells that it
    /// failed only because it would have had to wait.
    Io { would_block: bool, message: String },
    /// Authentication failed.
    Auth(String),
    /// A configuration-changing connection operation needs admin
    /// authentication before it can proceed. This is not a denial: the caller
    /// is expected to ask for the credentials and to try again.
    AuthRequired(String),
    /// The WireGuard engine failed.
    WireGuard(String),
    /// The record is active, or another operation on it is in progress. The
    /// caller is expected to wait and to try again.
    Busy(String),
    /// There is no record of the kind asked for.
    NotFound(String),
    /// Anything else.
    Other(String),
}

/// The error as a sentence.
pub open spec fn error_text(error: AppError) -> Seq<char> {
    match error {
        AppError::Json(message) => "JSON error: "@ + message@,
        AppError::Io { would_block: _, message } => "IO error: "@ + message@,
        AppError::Auth(message) => "Authentication failed: "@ + message@,
        AppError::AuthRequired(message) => "Admin authentication required: "@ + message@,
        AppError::WireGuard(message) => "WireGuard error: "@ + message@,
        AppError::Busy(message) => message@,
        AppError::NotFound(message) => message@,
        AppError::Other(message) => message@,
    }
}

impl AppError {
    /// The error as a sentence.
    pub fn message(&self) -> (text: String)
        ensures
            text@ == error_text(*self),
    {
        match self {
            AppError::Json(message) => prefixed("JSON error: ", message.as_str()),
            AppError::Io { would_block: _, message } => prefixed("IO error: ", message.as_str()),
            AppError::Auth(message) => prefixed("Authentication failed: ", message.as_str()),
            AppError::AuthRequired(message) => prefixed(
                "Admin authentication required: ",
                message.as_str(),
            ),
            AppError::WireGuard(message) => prefixed("WireGuard error: ", message.as_str()),
            AppError::Busy(message) => message.clone(),
            AppError::NotFound(message) => message.clone(),
            AppError::Other(message) => message.clone(),
        }
    }
}

/// The words that an error was made with.
pub open spec fn words(error: AppError) -> Seq<char> {
    match error {
        AppError::Json(message) => message@,
        AppError::Io { would_block: _, message } => message@,
        AppError::Auth(message) => message@,
        AppError::AuthRequired(message) => message@,
        AppError::WireGuard(message) => message@,
        AppError::Busy(message) => message@,
        AppError::NotFound(message) => message@,
        AppError::Other(message) => message@,
    }
}

/// An error ends with the words that it was made with, whatever is said before them.
pub proof fn errors_end_with_their_words(error: AppError)
    ensures
        error_text(error).len() >= words(error).len(),
        error_text(error).skip(error_text(error).len() - words(error).len()) == words(error),
{
    let text = error_text(error);
    assert(text.skip(text.len() - words(error).len()) =~= words(error));
}

} // verus!
