use vstd::prelude::*;

verus! {

/// Why a line or a value failed to decode.
#[derive(Debug, PartialEq, Eq)]
pub enum DecodeError {
    /// The input is not well-formed JSON; `offset` is the character
    /// position at which reading stopped.
    Syntax { offset: usize },
    /// The JSON parsed but does not fit the expected shape; carries the
    /// name of the offending member and the text observed there.
    SchemaMismatch { field: String, found: String },
    /// A base64 payload could not be decoded as base64.
    InvalidBase64,
}

} // verus!
