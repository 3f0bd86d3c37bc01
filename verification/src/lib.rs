//! A decoder for SCALE-encoded byte payloads whose shape is known only at
//! runtime, from a registry of type descriptions.
//!
//! The entry point resolves a numeric type identifier in a [`Registry`],
//! consumes the matching encoding from the front of a byte slice, and hands
//! each decoded value to a caller-supplied [`Visitor`]. Composite shapes are
//! handed to the visitor as lazy cursors that decode one nested item at a
//! time, narrowing a borrowed view of the input without copying it.

use vstd::prelude::*;

pub mod error;
pub mod registry;
pub mod bytes;
pub mod compact;
pub mod shape;
pub mod primitives;
mod trusted;
pub mod visitor;
pub mod engine;
pub mod composite;
pub mod tuple;
pub mod sequence;
pub mod array;
pub mod variant;
pub mod str_cursor;
pub mod bits;
pub mod laws;

pub use crate::error::{DecodeError, Error};
pub use crate::registry::{CompactKind, Field, Primitive, Registry, TypeDef, TypeInfo, VariantDef};
pub use crate::visitor::{IgnoreVisitor, Visitor};

verus! {

/// The nesting budget the top-level entry points decode under: deeper
/// type nesting ends in [`DecodeError::DepthLimitReached`].
pub const DECODE_MAX_DEPTH: u32 = 64;

/// Decodes the value of type `ty` at the front of `*data` by driving
/// `visitor` through its shape, advancing `*data` past exactly the
/// value's encoding on success — the count [`shape::skip_len`] gives,
/// however much of the value the visitor pulled itself.
pub fn decode_with_visitor<'scale, 'info, V: Visitor>(
    data: &mut &'scale [u8],
    ty: u32,
    types: &'info Registry,
    visitor: V,
) -> (r: Result<V::Value, Error<V::Error>>)
    ensures
        r is Ok ==> shape::skip_len(types@, ty, old(data)@, DECODE_MAX_DEPTH as nat) == Ok::<
            int,
            DecodeError,
        >(old(data)@.len() - final(data)@.len()) && final(data)@ == old(data)@.skip(
            old(data)@.len() - final(data)@.len(),
        ),
        r is Err ==> final(data)@ == old(data)@,
        engine::pre_visitor_err(r, types@, ty, old(data)@, DECODE_MAX_DEPTH as nat),
{
    match engine::decode_with_visitor_depth(*data, ty, types, visitor, DECODE_MAX_DEPTH) {
        Ok((v, rest)) => {
            proof {
                assert(rest@ =~= old(data)@.skip(old(data)@.len() - rest@.len()));
            }
            *data = rest;
            Ok(v)
        },
        Err(e) => Err(e),
    }
}

/// Skips the value of type `ty` at the front of `*data` without
/// producing output, advancing `*data` past exactly the bytes a decode
/// of it would consume; its result agrees with [`shape::skip_len`]
/// exactly.
pub fn skip<'scale, 'info>(
    data: &mut &'scale [u8],
    ty: u32,
    types: &'info Registry,
) -> (r: Result<(), DecodeError>)
    ensures
        match r {
            Ok(()) => shape::skip_len(types@, ty, old(data)@, DECODE_MAX_DEPTH as nat) == Ok::<
                int,
                DecodeError,
            >(old(data)@.len() - final(data)@.len()) && final(data)@ == old(data)@.skip(
                old(data)@.len() - final(data)@.len(),
            ),
            Err(e) => shape::skip_len(types@, ty, old(data)@, DECODE_MAX_DEPTH as nat) == Err::<
                int,
                DecodeError,
            >(e) && final(data)@ == old(data)@,
        },
{
    match shape::skip_value(types, ty, *data, DECODE_MAX_DEPTH) {
        Ok(k) => {
            let rest = vstd::slice::slice_subrange(*data, k, data.len());
            proof {
                assert(rest@ =~= old(data)@.skip(old(data)@.len() - rest@.len()));
            }
            *data = rest;
            Ok(())
        },
        Err(e) => Err(e),
    }
}

} // verus!
