//! The cursor over a string value's content bytes.
//!
//! UTF-8 is validated lazily: the bytes are sliced out by their length
//! prefix at decode time, but [`Str::as_str`] only fails when the text
//! itself is asked for, so a caller may skip an invalid string's bytes
//! without touching their content.

use vstd::prelude::*;

use vstd::utf8::{decode_utf8, valid_utf8};

use crate::error::DecodeError;
use crate::trusted::str_from_utf8;

verus! {

/// A string value's content: exactly the bytes its length prefix
/// declared, not yet checked to be UTF-8.
pub struct Str<'scale> {
    content: &'scale [u8],
}

impl<'scale> Str<'scale> {
    /// The string's content bytes.
    pub closed spec fn content_spec(self) -> Seq<u8> {
        self.content@
    }

    /// A cursor over a string's content bytes.
    pub fn new(content: &'scale [u8]) -> (r: Str<'scale>)
        ensures
            r.content_spec() == content@,
    {
        Str { content }
    }

    /// The string's content bytes, valid UTF-8 or not.
    pub fn bytes(&self) -> (r: &'scale [u8])
        ensures
            r@ == self.content_spec(),
    {
        self.content
    }

    /// The byte length the string's length prefix declared.
    pub fn len(&self) -> (r: usize)
        ensures
            r == self.content_spec().len(),
    {
        self.content.len()
    }

    /// The content as text: succeeds exactly when the bytes are valid
    /// UTF-8, and otherwise reports [`DecodeError::InvalidUtf8`].
    pub fn as_str(&self) -> (r: Result<&'scale str, DecodeError>)
        ensures
            match r {
                Ok(s) => valid_utf8(self.content_spec()) && s@ == decode_utf8(
                    self.content_spec(),
                ),
                Err(e) => !valid_utf8(self.content_spec()) && e == DecodeError::InvalidUtf8,
            },
    {
        match str_from_utf8(self.content) {
            Some(s) => Ok(s),
            None => Err(DecodeError::InvalidUtf8),
        }
    }
}

} // verus!
