//! The error taxonomy shared by every component.

use vstd::prelude::*;
use vstd::string::StringExecFns;
use crate::text::{decimal, decimal_string};

verus! {

/// What can go wrong while fetching and reshaping a response.
///
/// The I/O and JSON variants carry the message of the underlying failure.
#[derive(Debug, Clone, PartialEq, Eq)]
pub enum ExplorerError {
    Network(String),
    HttpStatus(u16),
    ProviderError(String),
    Parse(String),
    RateLimited,
    Validation(String),
    Io(String),
    Json(String),
    Unknown(String),
}

/// What an [`ExplorerError`] holds, as plain values.
pub enum ExplorerErrorView {
    Network(Seq<char>),
    HttpStatus(u16),
    ProviderError(Seq<char>),
    Parse(Seq<char>),
    RateLimited,
    Validation(Seq<char>),
    Io(Seq<char>),
    Json(Seq<char>),
    Unknown(Seq<char>),
}

impl View for ExplorerError {
    type V = ExplorerErrorView;

    open spec fn view(&self) -> ExplorerErrorView {
        match self {
            ExplorerError::Network(m) => ExplorerErrorView::Network(m@),
            ExplorerError::HttpStatus(code) => ExplorerErrorView::HttpStatus(*code),
            ExplorerError::ProviderError(m) => ExplorerErrorView::ProviderError(m@),
            ExplorerError::Parse(m) => ExplorerErrorView::Parse(m@),
            ExplorerError::RateLimited => ExplorerErrorView::RateLimited,
            ExplorerError::Validation(m) => ExplorerErrorView::Validation(m@),
            ExplorerError::Io(m) => ExplorerErrorView::Io(m@),
            ExplorerError::Json(m) => ExplorerErrorView::Json(m@),
            ExplorerError::Unknown(m) => ExplorerErrorView::Unknown(m@),
        }
    }
}

impl ExplorerError {
    /// The text shown to a user for this error.
    pub open spec fn message_spec(self) -> Seq<char> {
        match self {
            ExplorerError::Network(m) => "Network error: "@ + m@,
            ExplorerError::HttpStatus(code) => "HTTP status error: "@ + decimal(code as nat),
            ExplorerError::ProviderError(m) => "Provider error: "@ + m@,
            ExplorerError::Parse(m) => "Parse error: "@ + m@,
            ExplorerError::RateLimited => "Rate limited"@,
            ExplorerError::Validation(m) => "Validation error: "@ + m@,
            ExplorerError::Io(m) => "I/O error: "@ + m@,
            ExplorerError::Json(m) => "JSON error: "@ + m@,
            ExplorerError::Unknown(m) => "Unknown error: "@ + m@,
        }
    }

    /// Renders the error for a user.
    pub fn message(&self) -> (s: String)
        ensures
            s@ == self.message_spec(),
    {
        match self {
            ExplorerError::Network(m) => crate::text::join2("Network error: ", m.as_str()),
            ExplorerError::HttpStatus(code) => {
                let digits = decimal_string(*code as u64);
                crate::text::join2("HTTP status error: ", digits.as_str())
            },
            ExplorerError::ProviderError(m) => crate::text::join2("Provider error: ", m.as_str()),
            ExplorerError::Parse(m) => crate::text::join2("Parse error: ", m.as_str()),
            ExplorerError::RateLimited => String::from_str("Rate limited"),
            ExplorerError::Validation(m) => crate::text::join2("Validation error: ", m.as_str()),
            ExplorerError::Io(m) => crate::text::join2("I/O error: ", m.as_str()),
            ExplorerError::Json(m) => crate::text::join2("JSON error: ", m.as_str()),
            ExplorerError::Unknown(m) => crate::text::join2("Unknown error: ", m.as_str()),
        }
    }

    /// Same as [`ExplorerError::message`].
    pub fn to_string(&self) -> (s: String)
        ensures
            s@ == self.message_spec(),
    {
        self.message()
    }
}

} // verus!
