//! The errors of decoding and of fetching.

use vstd::prelude::*;

verus! {

/// Why a response body could not be decoded.
#[derive(Debug, Clone, Copy, PartialEq, Eq, Structural)]
pub enum DecodeError {
    /// The body is not a JSON document.
    Syntax,
    /// A member that must be present is absent.
    MissingField,
    /// A value is of another JSON type than its place asks for, or is a
    /// number outside the range of its field.
    InvalidType,
    /// The position of a location holds no element.
    NoLatitude,
    /// The position of a location holds one element only.
    NoLongitude,
    /// The position of a location holds more than two elements.
    TrailingElements,
}

/// The list of errors returned by the client.
#[derive(Debug)]
pub enum ClientError {
    /// An input or output operation failed; the text describes the failure.
    IO(String),
    /// The server answered with a status other than success, or one page of
    /// a fetch over several pages failed.
    APIError,
    /// The HTTP exchange failed; the text describes the failure.
    HyperError(String),
    /// The request could not be built; the text describes the failure.
    HttpError(String),
    /// The proxy address is not a URI; the text describes the failure.
    ProxyConfiguration(String),
    /// The body of a response could not be decoded.
    Serde(DecodeError),
    /// The task that decodes a body did not run to its end; the text
    /// describes the failure.
    Tokio(String),
}

} // verus!
