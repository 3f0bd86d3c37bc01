//! The decode engine: resolves a type identifier to its shape and drives
//! a visitor through it.

use vstd::prelude::*;

use crate::array::Array;
use crate::bits::BitSequence;
use crate::bytes::{lemma_le_uint_bound, pow256, suffix_of};
use crate::compact::{compact_decode, compact_kind_max, decode_compact};
use crate::composite::Composite;
use crate::error::{DecodeError, Error};
use crate::primitives::{decode_bool, decode_char, decode_sint, decode_uint};
use crate::registry::{find_variant, CompactKind, Primitive, Registry, TypeDef, TypeInfo};
use crate::sequence::Sequence;
use crate::shape::{items_skip_len, prim_skip_len, skip_len};
use crate::str_cursor::Str;
use crate::tuple::Tuple;
use crate::variant::Variant;
use crate::visitor::Visitor;

verus! {

/// The result is the decoder's own failure `e`.
pub open spec fn is_decode_err<T, E>(r: Result<T, Error<E>>, e: DecodeError) -> bool {
    r == Err::<T, Error<E>>(Error::Decode(e))
}

/// The decoder's own failures that come before any visitor operation
/// runs: whatever the visitor, an operation that decodes the value of
/// type `ty` at the front of `bytes` under the budget `depth` reports
/// exactly these errors on these inputs. The structural errors of
/// composite, tuple and array shapes surface while items are pulled and
/// are pinned by the cursor operations' own contracts instead.
pub open spec fn pre_visitor_err<T, E>(
    r: Result<T, Error<E>>,
    reg: Seq<TypeInfo>,
    ty: u32,
    bytes: Seq<u8>,
    depth: nat,
) -> bool {
    &&& depth == 0 ==> is_decode_err(r, DecodeError::DepthLimitReached)
    &&& (depth > 0 && (ty as int) >= reg.len()) ==> is_decode_err(
        r,
        DecodeError::TypeIdNotFound(ty),
    )
    &&& (depth > 0 && (ty as int) < reg.len()) ==> match reg[ty as int].def {
        TypeDef::Primitive(p) => (prim_skip_len(p, bytes) matches Err(e) ==> is_decode_err(
            r,
            e,
        )),
        TypeDef::Compact(kind) => match compact_decode(bytes) {
            None => is_decode_err(r, DecodeError::InvalidCompactEncoding),
            Some((v, k)) => v > compact_kind_max(kind) ==> is_decode_err(
                r,
                DecodeError::InvalidCompactEncoding,
            ),
        },
        TypeDef::Sequence(elem) => compact_decode(bytes) is None ==> is_decode_err(
            r,
            DecodeError::InvalidCompactEncoding,
        ),
        TypeDef::Variant(alts) => {
            &&& bytes.len() < 1 ==> is_decode_err(r, DecodeError::NotEnoughBytes)
            &&& (bytes.len() >= 1 && find_variant(alts@, bytes[0]) is None) ==> is_decode_err(
                r,
                DecodeError::VariantNotFound(bytes[0]),
            )
        },
        TypeDef::BitSequence => (skip_len(reg, ty, bytes, depth) matches Err(e)
            ==> is_decode_err(r, e)),
        _ => true,
    }
}

/// Decodes the value of type `ty` at the front of `data` by driving
/// `visitor` through its shape, under the nesting budget `depth`.
///
/// On success the returned slice is the input with exactly the value's
/// encoding consumed from the front — the same count [`skip_len`], and
/// so a visitor-free skip, gives — however much of the value the visitor
/// chose to pull itself.
pub fn decode_with_visitor_depth<'scale, 'info, V: Visitor>(
    data: &'scale [u8],
    ty: u32,
    types: &'info Registry,
    visitor: V,
    depth: u32,
) -> (r: Result<(V::Value, &'scale [u8]), Error<V::Error>>)
    ensures
        r matches Ok((v, rest)) ==> skip_len(types@, ty, data@, depth as nat) == Ok::<
            int,
            DecodeError,
        >(data@.len() - rest@.len()) && suffix_of(rest@, data@),
        pre_visitor_err(r, types@, ty, data@, depth as nat),
{
    if depth == 0 {
        return Err(Error::Decode(DecodeError::DepthLimitReached));
    }
    let info = match types.resolve(ty) {
        Some(info) => info,
        None => {
            return Err(Error::Decode(DecodeError::TypeIdNotFound(ty)));
        },
    };
    match &info.def {
        TypeDef::Primitive(p) => decode_primitive(*p, data, types, visitor, depth),
        TypeDef::Compact(kind) => {
            let (v, k) = match decode_compact(data) {
                Ok(p) => p,
                Err(e) => {
                    return Err(Error::Decode(e));
                },
            };
            let rest = vstd::slice::slice_subrange(data, k, data.len());
            proof {
                assert(rest@ =~= data@.skip(k as int));
                lemma_skip_is_suffix(data@, k as int);
            }
            let out = match kind {
                CompactKind::U8 => {
                    if v > u8::MAX as u128 {
                        return Err(Error::Decode(DecodeError::InvalidCompactEncoding));
                    }
                    visitor.visit_compact_u8(v as u8)
                },
                CompactKind::U16 => {
                    if v > u16::MAX as u128 {
                        return Err(Error::Decode(DecodeError::InvalidCompactEncoding));
                    }
                    visitor.visit_compact_u16(v as u16)
                },
                CompactKind::U32 => {
                    if v > u32::MAX as u128 {
                        return Err(Error::Decode(DecodeError::InvalidCompactEncoding));
                    }
                    visitor.visit_compact_u32(v as u32)
                },
                CompactKind::U64 => {
                    if v > u64::MAX as u128 {
                        return Err(Error::Decode(DecodeError::InvalidCompactEncoding));
                    }
                    visitor.visit_compact_u64(v as u64)
                },
                CompactKind::U128 => visitor.visit_compact_u128(v),
            };
            match out {
                Ok(out) => Ok((out, rest)),
                Err(e) => Err(e),
            }
        },
        TypeDef::Composite(fields) => {
            let mut c = Composite::new(
                data,
                info.path.as_slice(),
                fields.as_slice(),
                types,
                depth - 1,
            );
            let res = visitor.visit_composite(&mut c);
            let ghost mid = c;
            match res {
                Ok(out) => match c.skip_decoding() {
                    Ok(()) => {
                        let rest = c.bytes_from_undecoded();
                        proof {
                            crate::bytes::lemma_suffix_trans(rest@, mid.undecoded(), data@);
                            assert(items_skip_len(
                                types@,
                                crate::registry::field_ids(fields@),
                                data@,
                                (depth - 1) as nat,
                            ) == Ok::<int, DecodeError>(data@.len() - rest@.len()));
                        }
                        Ok((out, rest))
                    },
                    Err(e) => Err(Error::Decode(e)),
                },
                Err(e) => Err(e),
            }
        },
        TypeDef::Tuple(fields) => {
            let mut c = Tuple::new(data, fields.as_slice(), types, depth - 1);
            let res = visitor.visit_tuple(&mut c);
            let ghost mid = c;
            match res {
                Ok(out) => match c.skip_decoding() {
                    Ok(()) => {
                        let rest = c.bytes_from_undecoded();
                        proof {
                            crate::bytes::lemma_suffix_trans(rest@, mid.undecoded(), data@);
                            assert(items_skip_len(
                                types@,
                                crate::registry::field_ids(fields@),
                                data@,
                                (depth - 1) as nat,
                            ) == Ok::<int, DecodeError>(data@.len() - rest@.len()));
                        }
                        Ok((out, rest))
                    },
                    Err(e) => Err(Error::Decode(e)),
                },
                Err(e) => Err(e),
            }
        },
        TypeDef::Array(n, elem) => {
            let mut c = Array::new(data, *elem, *n, types, depth - 1);
            let res = visitor.visit_array(&mut c);
            let ghost mid = c;
            match res {
                Ok(out) => match c.skip_decoding() {
                    Ok(()) => {
                        let rest = c.bytes_from_undecoded();
                        proof {
                            crate::bytes::lemma_suffix_trans(rest@, mid.undecoded(), data@);
                        }
                        Ok((out, rest))
                    },
                    Err(e) => Err(Error::Decode(e)),
                },
                Err(e) => Err(e),
            }
        },
        TypeDef::Sequence(elem) => {
            let (n, k) = match decode_compact(data) {
                Ok(p) => p,
                Err(e) => {
                    return Err(Error::Decode(e));
                },
            };
            if n > u32::MAX as u128 {
                return Err(Error::Decode(DecodeError::InvalidCompactEncoding));
            }
            let elems = vstd::slice::slice_subrange(data, k, data.len());
            proof {
                assert(elems@ =~= data@.skip(k as int));
                lemma_skip_is_suffix(data@, k as int);
            }
            let mut c = Sequence::new(data, elems, *elem, n as u32, types, depth - 1);
            let res = visitor.visit_sequence(&mut c);
            let ghost mid = c;
            match res {
                Ok(out) => match c.skip_decoding() {
                    Ok(()) => {
                        let rest = c.bytes_from_undecoded();
                        proof {
                            crate::bytes::lemma_suffix_trans(rest@, mid.undecoded(), elems@);
                            crate::bytes::lemma_suffix_trans(rest@, elems@, data@);
                        }
                        Ok((out, rest))
                    },
                    Err(e) => Err(Error::Decode(e)),
                },
                Err(e) => Err(e),
            }
        },
        TypeDef::Variant(alts) => {
            if data.len() < 1 {
                return Err(Error::Decode(DecodeError::NotEnoughBytes));
            }
            let d = data[0];
            let alt = match crate::shape::find_variant_ref(alts, d) {
                Some(alt) => alt,
                None => {
                    return Err(Error::Decode(DecodeError::VariantNotFound(d)));
                },
            };
            let body = vstd::slice::slice_subrange(data, 1, data.len());
            proof {
                assert(body@ =~= data@.skip(1));
                lemma_skip_is_suffix(data@, 1);
            }
            let mut c = Variant::new(
                &alt.name,
                body,
                info.path.as_slice(),
                alt.fields.as_slice(),
                types,
                depth - 1,
            );
            let res = visitor.visit_variant(&mut c);
            let ghost mid = c;
            match res {
                Ok(out) => match c.skip_decoding() {
                    Ok(()) => {
                        let rest = c.bytes_from_undecoded();
                        proof {
                            crate::bytes::lemma_suffix_trans(
                                rest@,
                                mid.fields_cursor().undecoded(),
                                body@,
                            );
                            crate::bytes::lemma_suffix_trans(rest@, body@, data@);
                        }
                        Ok((out, rest))
                    },
                    Err(e) => Err(Error::Decode(e)),
                },
                Err(e) => Err(e),
            }
        },
        TypeDef::BitSequence => {
            let (n, k) = match decode_compact(data) {
                Ok(p) => p,
                Err(e) => {
                    return Err(Error::Decode(e));
                },
            };
            if n > u32::MAX as u128 {
                return Err(Error::Decode(DecodeError::InvalidCompactEncoding));
            }
            let m: u128 = n / 8 + if n % 8 != 0 {
                1u128
            } else {
                0u128
            };
            assert(m == (n + 7) as int / 8);
            if ((data.len() - k) as u128) < m {
                return Err(Error::Decode(DecodeError::NotEnoughBytes));
            }
            let content = vstd::slice::slice_subrange(data, k, k + (m as usize));
            let mut b = BitSequence::new(content, n as u32);
            let res = visitor.visit_bitsequence(&mut b);
            let rest = vstd::slice::slice_subrange(data, k + (m as usize), data.len());
            proof {
                lemma_skip_is_suffix(data@, k as int + m as int);
                assert(rest@ =~= data@.skip(k as int + m as int));
            }
            match res {
                Ok(out) => Ok((out, rest)),
                Err(e) => Err(e),
            }
        },
    }
}

/// Decodes a primitive shape and hands its value to the matching visitor
/// operation.
fn decode_primitive<'scale, 'info, V: Visitor>(
    p: Primitive,
    data: &'scale [u8],
    types: &'info Registry,
    visitor: V,
    depth: u32,
) -> (r: Result<(V::Value, &'scale [u8]), Error<V::Error>>)
    ensures
        r matches Ok((v, rest)) ==> prim_skip_len(p, data@) == Ok::<int, DecodeError>(
            data@.len() - rest@.len(),
        ) && suffix_of(rest@, data@),
        prim_skip_len(p, data@) matches Err(e) ==> is_decode_err(r, e),
{
    proof {
        reveal_with_fuel(pow256, 17);
    }
    match p {
        Primitive::Bool => {
            let v = match decode_bool(data) {
                Ok(v) => v,
                Err(e) => {
                    return Err(Error::Decode(e));
                },
            };
            finish(data, 1, visitor.visit_bool(v))
        },
        Primitive::Char => {
            let v = match decode_char(data) {
                Ok(v) => v,
                Err(e) => {
                    return Err(Error::Decode(e));
                },
            };
            finish(data, 4, visitor.visit_char(v))
        },
        Primitive::U8 => {
            let v = match decode_uint(data, 1) {
                Ok(v) => v,
                Err(e) => {
                    return Err(Error::Decode(e));
                },
            };
            finish(data, 1, visitor.visit_u8(v as u8))
        },
        Primitive::U16 => {
            let v = match decode_uint(data, 2) {
                Ok(v) => v,
                Err(e) => {
                    return Err(Error::Decode(e));
                },
            };
            finish(data, 2, visitor.visit_u16(v as u16))
        },
        Primitive::U32 => {
            let v = match decode_uint(data, 4) {
                Ok(v) => v,
                Err(e) => {
                    return Err(Error::Decode(e));
                },
            };
            finish(data, 4, visitor.visit_u32(v as u32))
        },
        Primitive::U64 => {
            let v = match decode_uint(data, 8) {
                Ok(v) => v,
                Err(e) => {
                    return Err(Error::Decode(e));
                },
            };
            finish(data, 8, visitor.visit_u64(v as u64))
        },
        Primitive::U128 => {
            let v = match decode_uint(data, 16) {
                Ok(v) => v,
                Err(e) => {
                    return Err(Error::Decode(e));
                },
            };
            finish(data, 16, visitor.visit_u128(v))
        },
        Primitive::I8 => {
            let v = match decode_sint(data, 1) {
                Ok(v) => v,
                Err(e) => {
                    return Err(Error::Decode(e));
                },
            };
            proof {
                lemma_le_uint_bound(data@.take(1));
            }
            finish(data, 1, visitor.visit_i8(v as i8))
        },
        Primitive::I16 => {
            let v = match decode_sint(data, 2) {
                Ok(v) => v,
                Err(e) => {
                    return Err(Error::Decode(e));
                },
            };
            proof {
                lemma_le_uint_bound(data@.take(2));
            }
            finish(data, 2, visitor.visit_i16(v as i16))
        },
        Primitive::I32 => {
            let v = match decode_sint(data, 4) {
                Ok(v) => v,
                Err(e) => {
                    return Err(Error::Decode(e));
                },
            };
            proof {
                lemma_le_uint_bound(data@.take(4));
            }
            finish(data, 4, visitor.visit_i32(v as i32))
        },
        Primitive::I64 => {
            let v = match decode_sint(data, 8) {
                Ok(v) => v,
                Err(e) => {
                    return Err(Error::Decode(e));
                },
            };
            proof {
                lemma_le_uint_bound(data@.take(8));
            }
            finish(data, 8, visitor.visit_i64(v as i64))
        },
        Primitive::I128 => {
            let v = match decode_sint(data, 16) {
                Ok(v) => v,
                Err(e) => {
                    return Err(Error::Decode(e));
                },
            };
            finish(data, 16, visitor.visit_i128(v))
        },
        Primitive::U256 => {
            if data.len() < 32 {
                return Err(Error::Decode(DecodeError::NotEnoughBytes));
            }
            let s = vstd::slice::slice_subrange(data, 0, 32);
            finish(data, 32, visitor.visit_u256(s))
        },
        Primitive::I256 => {
            if data.len() < 32 {
                return Err(Error::Decode(DecodeError::NotEnoughBytes));
            }
            let s = vstd::slice::slice_subrange(data, 0, 32);
            finish(data, 32, visitor.visit_i256(s))
        },
        Primitive::Str => {
            let (n128, k) = match decode_compact(data) {
                Ok(p) => p,
                Err(e) => {
                    return Err(Error::Decode(e));
                },
            };
            if n128 > u32::MAX as u128 {
                return Err(Error::Decode(DecodeError::InvalidCompactEncoding));
            }
            if ((data.len() - k) as u128) < n128 {
                return Err(Error::Decode(DecodeError::NotEnoughBytes));
            }
            let n = n128 as usize;
            let content = vstd::slice::slice_subrange(data, k, k + n);
            let mut s = Str::new(content);
            finish(data, k + n, visitor.visit_str(&mut s))
        },
    }
}

/// Narrows `data` by the `consumed` bytes of a decoded primitive and
/// pairs the rest with the visitor's output.
fn finish<'scale, T, E>(
    data: &'scale [u8],
    consumed: usize,
    out: Result<T, Error<E>>,
) -> (r: Result<(T, &'scale [u8]), Error<E>>)
    requires
        consumed <= data@.len(),
    ensures
        r matches Ok((v, rest)) ==> out is Ok && rest@ == data@.skip(consumed as int)
            && data@.len() - rest@.len() == consumed && suffix_of(rest@, data@),
        out is Err ==> r == Err::<(T, &'scale [u8]), Error<E>>(out->Err_0),
{
    let rest = vstd::slice::slice_subrange(data, consumed, data.len());
    proof {
        assert(rest@ =~= data@.skip(consumed as int));
        lemma_skip_is_suffix(data@, consumed as int);
    }
    match out {
        Ok(v) => Ok((v, rest)),
        Err(e) => Err(e),
    }
}

/// A tail taken with `skip` is a suffix.
proof fn lemma_skip_is_suffix(bytes: Seq<u8>, k: int)
    requires
        0 <= k <= bytes.len(),
    ensures
        suffix_of(bytes.skip(k), bytes),
{
    assert(bytes.skip(k) =~= bytes.skip(bytes.len() - bytes.skip(k).len()));
}

} // verus!
