//! The failure taxonomy shared by every decoding operation.

use vstd::prelude::*;

verus! {

/// An error produced by the decoder itself while interpreting input bytes
/// against the registry's type descriptions.
///
/// Malformed input never panics: every consuming operation reports one of
/// these values, and the first failure aborts the whole decode call.
#[derive(Debug, Clone, Copy, PartialEq, Eq)]
pub enum DecodeError {
    /// A type identifier was not present in the registry.
    TypeIdNotFound(u32),
    /// The input ended before the bytes a shape requires.
    NotEnoughBytes,
    /// A variant's discriminant byte matched none of the registry's
    /// alternatives for that variant type.
    VariantNotFound(u8),
    /// A compact-encoded integer had a malformed, truncated or
    /// non-minimal prefix, or did not fit the wrapped integer width.
    InvalidCompactEncoding,
    /// String bytes were not valid UTF-8.
    InvalidUtf8,
    /// A four-byte character value was not a Unicode scalar value.
    InvalidChar(u32),
    /// A boolean byte was neither zero nor one.
    InvalidBool(u8),
    /// The type nesting exceeded the decoder's depth budget.
    DepthLimitReached,
}

/// The error type handed back by a decode call driven by a visitor: either
/// the decoder's own failure, or whatever error the visitor produced,
/// forwarded unchanged.
#[derive(Debug, Clone, Copy, PartialEq, Eq)]
pub enum Error<E> {
    /// The decoder failed while interpreting the input bytes.
    Decode(DecodeError),
    /// The caller's visitor reported an error of its own.
    Visitor(E),
}

} // verus!
