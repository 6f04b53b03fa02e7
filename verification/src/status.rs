//! Status codes that the handlers answer with, and the reasons for which a
//! payload is turned down.

use vstd::prelude::*;

verus! {

/// The client's request was not acceptable.
pub const BAD_REQUEST: u16 = 400;

/// The server failed.
pub const INTERNAL_SERVER_ERROR: u16 = 500;

/// Why no baking request could be had from a request's headers.
#[derive(Clone, Copy, Debug, PartialEq, Eq, Structural)]
pub enum PayloadError {
    /// The headers hold no payload.
    MissingPayload,
    /// The payload is not text in the binary-safe encoding.
    InvalidEncoding,
    /// The decoded payload is not UTF-8 text.
    InvalidText,
    /// The decoded text is not a baking request.
    MalformedRequest,
}

impl PayloadError {
    /// The status that the client sees: the same for every reason.
    pub fn status(&self) -> (code: u16)
        ensures
            code == BAD_REQUEST,
    {
        BAD_REQUEST
    }
}

} // verus!
