//! The caller-supplied handler the decode engine drives.
//!
//! The engine — not the caller — picks which operation runs, from the
//! shape the registry resolved, so a structural mismatch between shape
//! and operation cannot happen. Each operation consumes `self`: a
//! visitor instance handles exactly one value, and nested items each get
//! a fresh instance, so no state is shared across sibling items.

use vstd::prelude::*;

use crate::array::Array;
use crate::bits::BitSequence;
use crate::composite::Composite;
use crate::error::{DecodeError, Error};
use crate::sequence::Sequence;
use crate::str_cursor::Str;
use crate::tuple::Tuple;
use crate::variant::Variant;

verus! {

/// One operation per shape kind. Operations that receive a cursor may
/// pull as many or as few items from it as they like, but only through
/// the cursor's own methods: they must leave its window, field list and
/// bookkeeping intact, which is what its `preserves` relation says. The
/// engine decodes whatever they leave unpulled.
pub trait Visitor: Sized {
    /// The type this visitor builds out of a decoded value.
    type Value;

    /// The visitor's own error type, forwarded unchanged inside
    /// [`Error::Visitor`].
    type Error;

    fn visit_bool(self, value: bool) -> Result<Self::Value, Error<Self::Error>>;

    fn visit_char(self, value: char) -> Result<Self::Value, Error<Self::Error>>;

    fn visit_u8(self, value: u8) -> Result<Self::Value, Error<Self::Error>>;

    fn visit_u16(self, value: u16) -> Result<Self::Value, Error<Self::Error>>;

    fn visit_u32(self, value: u32) -> Result<Self::Value, Error<Self::Error>>;

    fn visit_u64(self, value: u64) -> Result<Self::Value, Error<Self::Error>>;

    fn visit_u128(self, value: u128) -> Result<Self::Value, Error<Self::Error>>;

    /// The 256-bit unsigned form: the value's 32 little-endian bytes.
    fn visit_u256(self, value: &[u8]) -> (r: Result<Self::Value, Error<Self::Error>>)
        requires
            value@.len() == 32,
    ;

    fn visit_i8(self, value: i8) -> Result<Self::Value, Error<Self::Error>>;

    fn visit_i16(self, value: i16) -> Result<Self::Value, Error<Self::Error>>;

    fn visit_i32(self, value: i32) -> Result<Self::Value, Error<Self::Error>>;

    fn visit_i64(self, value: i64) -> Result<Self::Value, Error<Self::Error>>;

    fn visit_i128(self, value: i128) -> Result<Self::Value, Error<Self::Error>>;

    /// The 256-bit signed form: the value's 32 little-endian bytes.
    fn visit_i256(self, value: &[u8]) -> (r: Result<Self::Value, Error<Self::Error>>)
        requires
            value@.len() == 32,
    ;

    fn visit_compact_u8(self, value: u8) -> Result<Self::Value, Error<Self::Error>>;

    fn visit_compact_u16(self, value: u16) -> Result<Self::Value, Error<Self::Error>>;

    fn visit_compact_u32(self, value: u32) -> Result<Self::Value, Error<Self::Error>>;

    fn visit_compact_u64(self, value: u64) -> Result<Self::Value, Error<Self::Error>>;

    fn visit_compact_u128(self, value: u128) -> Result<Self::Value, Error<Self::Error>>;

    fn visit_str(self, value: &mut Str<'_>) -> (r: Result<Self::Value, Error<Self::Error>>)
        ensures
            *final(value) == *old(value),
    ;

    fn visit_bitsequence(self, value: &mut BitSequence<'_>) -> (r: Result<
        Self::Value,
        Error<Self::Error>,
    >)
        requires
            old(value).wf(),
        ensures
            *final(value) == *old(value),
    ;

    fn visit_composite(self, value: &mut Composite<'_, '_>) -> (r: Result<
        Self::Value,
        Error<Self::Error>,
    >)
        requires
            old(value).wf(),
        ensures
            Composite::preserves(*old(value), *final(value)),
    ;

    fn visit_tuple(self, value: &mut Tuple<'_, '_>) -> (r: Result<Self::Value, Error<Self::Error>>)
        requires
            old(value).wf(),
        ensures
            Tuple::preserves(*old(value), *final(value)),
    ;

    fn visit_sequence(self, value: &mut Sequence<'_, '_>) -> (r: Result<
        Self::Value,
        Error<Self::Error>,
    >)
        requires
            old(value).wf(),
        ensures
            Sequence::preserves(*old(value), *final(value)),
    ;

    fn visit_array(self, value: &mut Array<'_, '_>) -> (r: Result<Self::Value, Error<Self::Error>>)
        requires
            old(value).wf(),
        ensures
            Array::preserves(*old(value), *final(value)),
    ;

    fn visit_variant(self, value: &mut Variant<'_, '_>) -> (r: Result<
        Self::Value,
        Error<Self::Error>,
    >)
        requires
            old(value).wf(),
        ensures
            Variant::preserves(*old(value), *final(value)),
    ;
}

/// The degenerate visitor that discards every value: used to advance
/// past unwanted values cheaply while still validating structure and
/// bounds.
pub struct IgnoreVisitor;

impl Visitor for IgnoreVisitor {
    type Value = ();

    type Error = DecodeError;

    fn visit_bool(self, value: bool) -> Result<Self::Value, Error<Self::Error>> {
        Ok(())
    }

    fn visit_char(self, value: char) -> Result<Self::Value, Error<Self::Error>> {
        Ok(())
    }

    fn visit_u8(self, value: u8) -> Result<Self::Value, Error<Self::Error>> {
        Ok(())
    }

    fn visit_u16(self, value: u16) -> Result<Self::Value, Error<Self::Error>> {
        Ok(())
    }

    fn visit_u32(self, value: u32) -> Result<Self::Value, Error<Self::Error>> {
        Ok(())
    }

    fn visit_u64(self, value: u64) -> Result<Self::Value, Error<Self::Error>> {
        Ok(())
    }

    fn visit_u128(self, value: u128) -> Result<Self::Value, Error<Self::Error>> {
        Ok(())
    }

    fn visit_u256(self, value: &[u8]) -> Result<Self::Value, Error<Self::Error>> {
        Ok(())
    }

    fn visit_i8(self, value: i8) -> Result<Self::Value, Error<Self::Error>> {
        Ok(())
    }

    fn visit_i16(self, value: i16) -> Result<Self::Value, Error<Self::Error>> {
        Ok(())
    }

    fn visit_i32(self, value: i32) -> Result<Self::Value, Error<Self::Error>> {
        Ok(())
    }

    fn visit_i64(self, value: i64) -> Result<Self::Value, Error<Self::Error>> {
        Ok(())
    }

    fn visit_i128(self, value: i128) -> Result<Self::Value, Error<Self::Error>> {
        Ok(())
    }

    fn visit_i256(self, value: &[u8]) -> Result<Self::Value, Error<Self::Error>> {
        Ok(())
    }

    fn visit_compact_u8(self, value: u8) -> Result<Self::Value, Error<Self::Error>> {
        Ok(())
    }

    fn visit_compact_u16(self, value: u16) -> Result<Self::Value, Error<Self::Error>> {
        Ok(())
    }

    fn visit_compact_u32(self, value: u32) -> Result<Self::Value, Error<Self::Error>> {
        Ok(())
    }

    fn visit_compact_u64(self, value: u64) -> Result<Self::Value, Error<Self::Error>> {
        Ok(())
    }

    fn visit_compact_u128(self, value: u128) -> Result<Self::Value, Error<Self::Error>> {
        Ok(())
    }

    fn visit_str(self, value: &mut Str<'_>) -> Result<Self::Value, Error<Self::Error>> {
        Ok(())
    }

    fn visit_bitsequence(self, value: &mut BitSequence<'_>) -> Result<
        Self::Value,
        Error<Self::Error>,
    > {
        Ok(())
    }

    fn visit_composite(self, value: &mut Composite<'_, '_>) -> Result<
        Self::Value,
        Error<Self::Error>,
    > {
        match value.skip_decoding() {
            Ok(()) => Ok(()),
            Err(e) => Err(Error::Decode(e)),
        }
    }

    fn visit_tuple(self, value: &mut Tuple<'_, '_>) -> Result<Self::Value, Error<Self::Error>> {
        match value.skip_decoding() {
            Ok(()) => Ok(()),
            Err(e) => Err(Error::Decode(e)),
        }
    }

    fn visit_sequence(self, value: &mut Sequence<'_, '_>) -> Result<
        Self::Value,
        Error<Self::Error>,
    > {
        match value.skip_decoding() {
            Ok(()) => Ok(()),
            Err(e) => Err(Error::Decode(e)),
        }
    }

    fn visit_array(self, value: &mut Array<'_, '_>) -> Result<Self::Value, Error<Self::Error>> {
        match value.skip_decoding() {
            Ok(()) => Ok(()),
            Err(e) => Err(Error::Decode(e)),
        }
    }

    fn visit_variant(self, value: &mut Variant<'_, '_>) -> Result<
        Self::Value,
        Error<Self::Error>,
    > {
        match value.skip_decoding() {
            Ok(()) => Ok(()),
            Err(e) => Err(Error::Decode(e)),
        }
    }
}

} // verus!
