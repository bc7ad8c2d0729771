//! The kinds of failure of a request.

use vstd::prelude::*;

verus! {

/// Why a request failed.
#[derive(Clone, Copy, Debug, PartialEq, Eq, Structural)]
pub enum TwitterError {
    /// The target URL cannot be parsed or cannot be signed: nothing was sent.
    Encoding,
    /// The request could not be sent, or its response could not be read.
    Transport,
    /// The response is not well-formed structured data.
    Decode,
}

} // verus!
