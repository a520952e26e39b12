//! The failures that the library reports.

use vstd::prelude::*;

verus! {

/// Why an operation of the library failed.
#[derive(Clone, Copy, Debug, PartialEq, Eq, Structural)]
pub enum Error {
    /// A text, the seed or one found in a page, is no URL.
    UrlParse,
    /// The URL names no host, so its requests cannot be paced.
    NoHost,
    /// A page was to be refreshed before a request was bound to it.
    RequestNotPrepared,
    /// The transport failed or timed out.
    Network,
    /// A heuristic found no candidate in a document.
    EmptyHeuristic,
    /// The library holds no book under the label.
    NotFound,
}

impl Error {
    /// A short description of the failure.
    pub fn message(&self) -> (r: &'static str)
        ensures
            r@ == match *self {
                Error::UrlParse => "not a URL"@,
                Error::NoHost => "No host."@,
                Error::RequestNotPrepared => "no request prepared"@,
                Error::Network => "network failure"@,
                Error::EmptyHeuristic => "nothing found in the document"@,
                Error::NotFound => "no such book"@,
            },
    {
        match self {
            Error::UrlParse => "not a URL",
            Error::NoHost => "No host.",
            Error::RequestNotPrepared => "no request prepared",
            Error::Network => "network failure",
            Error::EmptyHeuristic => "nothing found in the document",
            Error::NotFound => "no such book",
        }
    }
}

} // verus!
