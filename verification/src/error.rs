//! The errors of the library.

use vstd::prelude::*;

verus! {

/// Why `url` could not read a URL. Carried through as it came.
#[verifier::external_type_specification]
#[verifier::external_body]
pub struct ExUrlParseError(url::ParseError);

/// What can go wrong between a query and its records.
///
/// Every error is final for the sequence that meets it: it is handed to the caller once,
/// nothing is retried, and what was handed out before stays valid.
#[derive(Debug, PartialEq)]
pub enum Error {
    /// The server answered with a status outside 200 to 299.
    Http {
        /// The URL that was asked for.
        url: String,
        /// The status of the answer.
        code: u16,
        /// What the answer's body gave as its reason, else what is known of the status.
        reason: Option<String>,
    },
    /// The body of an answer is not what the records are read from.
    Serial(String),
    /// The request could not be sent, or no answer came.
    CannotSendRequest(String),
    /// The client could not be set up.
    CannotCreateClient(String),
    /// The user agent holds a byte that no header value may hold.
    InvalidHeaderValue(String),
    /// The URL of the server, or of an endpoint under it, is malformed.
    UrlParse(url::ParseError),
    /// Something that the caller chose, or that a listing has reached, is above what can
    /// be asked for: the size of a page, the number of a page, or the length of a query.
    /// No request is made for it.
    LimitExceeded,
    /// A listing in the server's own order was told to resume at a record rather than at
    /// a page.
    Usage,
}

/// The result of an operation of this library.
pub type Result<T, E = Error> = std::result::Result<T, E>;

} // verus!
