//! The failures of the service, and what a client is told of each.

use vstd::prelude::*;
use vstd::string::StringExecFns;

verus! {

/// Everything that can go wrong, with the cause as text.
#[derive(Debug, PartialEq, Eq)]
pub enum Error {
    /// The local file system failed.
    Io(String),
    /// The snapshot could not be written or read back.
    Json(String),
    /// A worker ended abnormally.
    TaskJoin(String),
    /// The renderer refused the source image.
    Tee(String),
    /// A render was asked for a name that the store does not hold.
    QueryNameNotFound,
    /// A remote request failed.
    Reqwest(String),
    /// A response header was not text.
    ToStrError(String),
    /// A downloaded skin could not be written to `path`.
    SaveFailed { path: String, name: String, error: String },
    /// A skin could not be downloaded.
    DownloadFailed { name: String, error: String },
}

/// The mathematical value of an `Error`.
pub enum ErrorView {
    Io(Seq<char>),
    Json(Seq<char>),
    TaskJoin(Seq<char>),
    Tee(Seq<char>),
    QueryNameNotFound,
    Reqwest(Seq<char>),
    ToStrError(Seq<char>),
    SaveFailed { path: Seq<char>, name: Seq<char>, error: Seq<char> },
    DownloadFailed { name: Seq<char>, error: Seq<char> },
}

impl View for Error {
    type V = ErrorView;

    open spec fn view(&self) -> ErrorView {
        match self {
            Error::Io(e) => ErrorView::Io(e@),
            Error::Json(e) => ErrorView::Json(e@),
            Error::TaskJoin(e) => ErrorView::TaskJoin(e@),
            Error::Tee(e) => ErrorView::Tee(e@),
            Error::QueryNameNotFound => ErrorView::QueryNameNotFound,
            Error::Reqwest(e) => ErrorView::Reqwest(e@),
            Error::ToStrError(e) => ErrorView::ToStrError(e@),
            Error::SaveFailed { path, name, error } => ErrorView::SaveFailed {
                path: path@,
                name: name@,
                error: error@,
            },
            Error::DownloadFailed { name, error } => ErrorView::DownloadFailed {
                name: name@,
                error: error@,
            },
        }
    }
}

/// The payload that a client receives in place of an image.
#[derive(Debug, PartialEq, Eq)]
pub struct ErrorResponse {
    /// HTTP status.
    pub code: u16,
    /// What the client is told.
    pub message: String,
}

impl ErrorView {
    /// The status of the response: a request for an unknown skin is the
    /// client's fault, everything else the server's.
    pub open spec fn code(self) -> u16 {
        if self is QueryNameNotFound {
            400
        } else {
            500
        }
    }

    /// The text of the response. Causes stay in the log: only the name of the
    /// skin is passed on.
    pub open spec fn message(self) -> Seq<char> {
        match self {
            ErrorView::QueryNameNotFound => "Query expected name, but got none"@,
            ErrorView::Io(_) => "Skin not found"@,
            ErrorView::Tee(_) => "Failed to render UV"@,
            ErrorView::Reqwest(_) => "External request failed"@,
            ErrorView::ToStrError(_) => "Invalid header value"@,
            ErrorView::TaskJoin(_) => "Background task failed"@,
            ErrorView::Json(_) => "JSON processing failed"@,
            ErrorView::SaveFailed { name, .. } => "Failed to save "@ + name,
            ErrorView::DownloadFailed { name, .. } => "Failed to download "@ + name,
        }
    }
}

impl Error {
    /// The response that stands for this error.
    pub fn into_response(self) -> (r: ErrorResponse)
        ensures
            r.code == self@.code(),
            r.message@ == self@.message(),
    {
        match self {
            Error::QueryNameNotFound => ErrorResponse {
                code: 400,
                message: String::from_str("Query expected name, but got none"),
            },
            Error::Io(_) => ErrorResponse { code: 500, message: String::from_str("Skin not found") },
            Error::Tee(_) => ErrorResponse {
                code: 500,
                message: String::from_str("Failed to render UV"),
            },
            Error::Reqwest(_) => ErrorResponse {
                code: 500,
                message: String::from_str("External request failed"),
            },
            Error::ToStrError(_) => ErrorResponse {
                code: 500,
                message: String::from_str("Invalid header value"),
            },
            Error::TaskJoin(_) => ErrorResponse {
                code: 500,
                message: String::from_str("Background task failed"),
            },
            Error::Json(_) => ErrorResponse {
                code: 500,
                message: String::from_str("JSON processing failed"),
            },
            Error::SaveFailed { path: _, name, error: _ } => ErrorResponse {
                code: 500,
                message: String::from_str("Failed to save ").concat(name.as_str()),
            },
            Error::DownloadFailed { name, error: _ } => ErrorResponse {
                code: 500,
                message: String::from_str("Failed to download ").concat(name.as_str()),
            },
        }
    }
}

} // verus!
