//! The byte-consumption model of every shape, and the verified skip.
//!
//! [`skip_len`] says, for a registry, a type identifier and input bytes,
//! exactly how many bytes that type's encoding occupies at the front of the
//! input — or which error the decoder reports there. It is the reference
//! that every consuming operation's contract is stated against: a decode
//! driven by any visitor and a plain skip must consume the same bytes.
//!
//! The `fuel` argument bounds how deep the spec may follow nested type
//! identifiers; the executable decoder enforces the same bound as its
//! `depth` budget, so a cyclic registry ends in
//! [`DecodeError::DepthLimitReached`] instead of unbounded recursion.

use vstd::prelude::*;

use crate::bytes::le_uint;
use crate::compact::{compact_decode, compact_kind_max, decode_compact};
use crate::error::DecodeError;
use crate::registry::{
    field_ids, find_variant, CompactKind, Field, Primitive, Registry, TypeDef, TypeInfo,
    VariantDef,
};

verus! {

/// True for the `u32` values that are Unicode scalar values, i.e. the
/// values that are some `char`.
pub open spec fn is_unicode_scalar(v: u32) -> bool {
    v < 0xD800 || (0xE000 <= v && v <= 0x10FFFF)
}

/// The byte width of a fixed-width primitive; `None` for strings, whose
/// width comes from their length prefix.
pub open spec fn prim_fixed_width(p: Primitive) -> Option<int> {
    match p {
        Primitive::Bool => Some(1),
        Primitive::U8 => Some(1),
        Primitive::I8 => Some(1),
        Primitive::U16 => Some(2),
        Primitive::I16 => Some(2),
        Primitive::Char => Some(4),
        Primitive::U32 => Some(4),
        Primitive::I32 => Some(4),
        Primitive::U64 => Some(8),
        Primitive::I64 => Some(8),
        Primitive::U128 => Some(16),
        Primitive::I128 => Some(16),
        Primitive::U256 => Some(32),
        Primitive::I256 => Some(32),
        Primitive::Str => None,
    }
}

/// Bytes consumed (or error reported) by a primitive at the front of
/// `bytes`.
pub open spec fn prim_skip_len(p: Primitive, bytes: Seq<u8>) -> Result<int, DecodeError> {
    match p {
        Primitive::Str => match compact_decode(bytes) {
            Some((n, k)) => if n > u32::MAX as u128 {
                Err(DecodeError::InvalidCompactEncoding)
            } else if bytes.len() >= k + n {
                Ok(k + n)
            } else {
                Err(DecodeError::NotEnoughBytes)
            },
            None => Err(DecodeError::InvalidCompactEncoding),
        },
        Primitive::Char => if bytes.len() < 4 {
            Err(DecodeError::NotEnoughBytes)
        } else {
            let v = le_uint(bytes.take(4)) as u32;
            if is_unicode_scalar(v) {
                Ok(4)
            } else {
                Err(DecodeError::InvalidChar(v))
            }
        },
        Primitive::Bool => if bytes.len() < 1 {
            Err(DecodeError::NotEnoughBytes)
        } else if bytes[0] == 0 || bytes[0] == 1 {
            Ok(1)
        } else {
            Err(DecodeError::InvalidBool(bytes[0]))
        },
        _ => {
            let w = prim_fixed_width(p)->Some_0;
            if bytes.len() >= w {
                Ok(w)
            } else {
                Err(DecodeError::NotEnoughBytes)
            }
        },
    }
}

/// A sequence of `n` copies of the element type identifier `elem`.
pub open spec fn repeat_ty(elem: u32, n: nat) -> Seq<u32> {
    Seq::new(n, |i: int| elem)
}

/// How many bytes the encoding of type `ty` occupies at the front of
/// `bytes`, or the error the decoder reports for it. This is the whole
/// consumption model: any decode of `ty` from `bytes` that returns
/// successfully has consumed exactly the `Ok` count.
pub open spec fn skip_len(reg: Seq<TypeInfo>, ty: u32, bytes: Seq<u8>, fuel: nat) -> Result<
    int,
    DecodeError,
>
    decreases fuel, 0nat,
{
    if fuel == 0 {
        Err(DecodeError::DepthLimitReached)
    } else if ty as int >= reg.len() {
        Err(DecodeError::TypeIdNotFound(ty))
    } else {
        match reg[ty as int].def {
            TypeDef::Primitive(p) => prim_skip_len(p, bytes),
            TypeDef::Compact(kind) => match compact_decode(bytes) {
                Some((v, k)) => if v <= compact_kind_max(kind) {
                    Ok(k)
                } else {
                    Err(DecodeError::InvalidCompactEncoding)
                },
                None => Err(DecodeError::InvalidCompactEncoding),
            },
            TypeDef::Composite(fields) => items_skip_len(
                reg,
                field_ids(fields@),
                bytes,
                (fuel - 1) as nat,
            ),
            TypeDef::Tuple(fields) => items_skip_len(
                reg,
                field_ids(fields@),
                bytes,
                (fuel - 1) as nat,
            ),
            TypeDef::Array(n, elem) => items_skip_len(
                reg,
                repeat_ty(elem, n as nat),
                bytes,
                (fuel - 1) as nat,
            ),
            TypeDef::Sequence(elem) => match compact_decode(bytes) {
                Some((n, k)) => if n > u32::MAX as u128 {
                    Err(DecodeError::InvalidCompactEncoding)
                } else {
                    match items_skip_len(
                    reg,
                    repeat_ty(elem, n as nat),
                    bytes.skip(k),
                    (fuel - 1) as nat,
                    ) {
                        Ok(l) => Ok(k + l),
                        Err(e) => Err(e),
                    }
                },
                None => Err(DecodeError::InvalidCompactEncoding),
            },
            TypeDef::Variant(alts) => if bytes.len() < 1 {
                Err(DecodeError::NotEnoughBytes)
            } else {
                match find_variant(alts@, bytes[0]) {
                    Some(alt) => match items_skip_len(
                        reg,
                        field_ids(alt.fields@),
                        bytes.skip(1),
                        (fuel - 1) as nat,
                    ) {
                        Ok(l) => Ok(1 + l),
                        Err(e) => Err(e),
                    },
                    None => Err(DecodeError::VariantNotFound(bytes[0])),
                }
            },
            TypeDef::BitSequence => match compact_decode(bytes) {
                Some((n, k)) => if n > u32::MAX as u128 {
                    Err(DecodeError::InvalidCompactEncoding)
                } else {
                    let m = (n + 7) as int / 8;
                    if bytes.len() >= k + m {
                        Ok(k + m)
                    } else {
                        Err(DecodeError::NotEnoughBytes)
                    }
                },
                None => Err(DecodeError::InvalidCompactEncoding),
            },
        }
    }
}

/// How many bytes the encodings of the listed types, one after another,
/// occupy at the front of `bytes` — or the first error among them.
pub open spec fn items_skip_len(
    reg: Seq<TypeInfo>,
    tys: Seq<u32>,
    bytes: Seq<u8>,
    fuel: nat,
) -> Result<int, DecodeError>
    decreases fuel, tys.len() + 1,
{
    if tys.len() == 0 {
        Ok(0)
    } else {
        match skip_len(reg, tys[0], bytes, fuel) {
            Ok(k) => match items_skip_len(reg, tys.drop_first(), bytes.skip(k), fuel) {
                Ok(l) => Ok(k + l),
                Err(e) => Err(e),
            },
            Err(e) => Err(e),
        }
    }
}

/// A successful skip never consumes more bytes than there are.
pub proof fn lemma_skip_len_in_bounds(reg: Seq<TypeInfo>, ty: u32, bytes: Seq<u8>, fuel: nat)
    ensures
        skip_len(reg, ty, bytes, fuel) matches Ok(k) ==> 0 <= k <= bytes.len(),
    decreases fuel, 0nat,
{
    if fuel == 0 || ty as int >= reg.len() {
    } else {
        match reg[ty as int].def {
            TypeDef::Composite(fields) => {
                lemma_items_skip_len_in_bounds(reg, field_ids(fields@), bytes, (fuel - 1) as nat);
            },
            TypeDef::Tuple(fields) => {
                lemma_items_skip_len_in_bounds(reg, field_ids(fields@), bytes, (fuel - 1) as nat);
            },
            TypeDef::Array(n, elem) => {
                lemma_items_skip_len_in_bounds(reg, repeat_ty(elem, n as nat), bytes, (fuel - 1) as nat);
            },
            TypeDef::Sequence(elem) => {
                match compact_decode(bytes) {
                    Some((n, k)) => {
                        lemma_items_skip_len_in_bounds(
                            reg,
                            repeat_ty(elem, n as nat),
                            bytes.skip(k),
                            (fuel - 1) as nat,
                        );
                    },
                    None => {},
                }
            },
            TypeDef::Variant(alts) => {
                if bytes.len() >= 1 {
                    match find_variant(alts@, bytes[0]) {
                        Some(alt) => {
                            lemma_items_skip_len_in_bounds(
                                reg,
                                field_ids(alt.fields@),
                                bytes.skip(1),
                                (fuel - 1) as nat,
                            );
                        },
                        None => {},
                    }
                }
            },
            _ => {},
        }
    }
}

/// Successive items never consume more bytes than there are.
pub proof fn lemma_items_skip_len_in_bounds(
    reg: Seq<TypeInfo>,
    tys: Seq<u32>,
    bytes: Seq<u8>,
    fuel: nat,
)
    ensures
        items_skip_len(reg, tys, bytes, fuel) matches Ok(l) ==> 0 <= l <= bytes.len(),
    decreases fuel, tys.len() + 1,
{
    if tys.len() == 0 {
    } else {
        lemma_skip_len_in_bounds(reg, tys[0], bytes, fuel);
        match skip_len(reg, tys[0], bytes, fuel) {
            Ok(k) => {
                lemma_items_skip_len_in_bounds(reg, tys.drop_first(), bytes.skip(k), fuel);
            },
            Err(_) => {},
        }
    }
}

/// Skips the encoding of the listed fields' types at the front of
/// `bytes`, returning the bytes consumed.
pub fn skip_fields(reg: &Registry, fields: &[Field], bytes: &[u8], depth: u32) -> (r: Result<
    usize,
    DecodeError,
>)
    ensures
        match r {
            Ok(k) => items_skip_len(reg@, field_ids(fields@), bytes@, depth as nat)
                == Ok::<int, DecodeError>(k as int) && k <= bytes@.len(),
            Err(e) => items_skip_len(reg@, field_ids(fields@), bytes@, depth as nat) == Err::<
                int,
                DecodeError,
            >(e),
        },
    decreases depth, 1nat,
{
    let ghost all_ids = field_ids(fields@);
    proof {
        assert(all_ids.skip(0) =~= all_ids);
    }
    let mut i: usize = 0;
    let mut rest: &[u8] = bytes;
    while i < fields.len()
        invariant
            i <= fields@.len(),
            rest@.len() <= bytes@.len(),
            all_ids == field_ids(fields@),
            items_skip_len(reg@, all_ids, bytes@, depth as nat) == match items_skip_len(
                reg@,
                all_ids.skip(i as int),
                rest@,
                depth as nat,
            ) {
                Ok(l) => Ok::<int, DecodeError>(bytes@.len() - rest@.len() + l),
                Err(e) => Err::<int, DecodeError>(e),
            },
        decreases fields@.len() - i,
    {
        let k = match skip_value(reg, fields[i].ty, rest, depth) {
            Ok(k) => k,
            Err(e) => {
                proof {
                    assert(all_ids.skip(i as int)[0] == fields@[i as int].ty);
                }
                return Err(e);
            },
        };
        proof {
            assert(all_ids.skip(i as int)[0] == fields@[i as int].ty);
            assert(all_ids.skip(i as int).drop_first() =~= all_ids.skip(i as int + 1));
            lemma_items_skip_len_in_bounds(
                reg@,
                all_ids.skip(i as int + 1),
                rest@.skip(k as int),
                depth as nat,
            );
        }
        rest = vstd::slice::slice_subrange(rest, k, rest.len());
        i = i + 1;
    }
    proof {
        assert(all_ids.skip(i as int) =~= Seq::<u32>::empty());
    }
    Ok(bytes.len() - rest.len())
}

/// Skips `count` successive encodings of the element type `elem`,
/// returning the bytes consumed.
pub fn skip_repeat(reg: &Registry, elem: u32, count: u128, bytes: &[u8], depth: u32) -> (r: Result<
    usize,
    DecodeError,
>)
    ensures
        match r {
            Ok(k) => items_skip_len(reg@, repeat_ty(elem, count as nat), bytes@, depth as nat)
                == Ok::<int, DecodeError>(k as int) && k <= bytes@.len(),
            Err(e) => items_skip_len(reg@, repeat_ty(elem, count as nat), bytes@, depth as nat)
                == Err::<int, DecodeError>(e),
        },
    decreases depth, 1nat,
{
    let mut left: u128 = count;
    let mut rest: &[u8] = bytes;
    while left > 0
        invariant
            rest@.len() <= bytes@.len(),
            items_skip_len(reg@, repeat_ty(elem, count as nat), bytes@, depth as nat) == match
                items_skip_len(reg@, repeat_ty(elem, left as nat), rest@, depth as nat) {
                Ok(l) => Ok::<int, DecodeError>(bytes@.len() - rest@.len() + l),
                Err(e) => Err::<int, DecodeError>(e),
            },
        decreases left,
    {
        let k = match skip_value(reg, elem, rest, depth) {
            Ok(k) => k,
            Err(e) => {
                return Err(e);
            },
        };
        proof {
            assert(repeat_ty(elem, left as nat).drop_first() =~= repeat_ty(
                elem,
                (left - 1) as nat,
            ));
            lemma_items_skip_len_in_bounds(
                reg@,
                repeat_ty(elem, (left - 1) as nat),
                rest@.skip(k as int),
                depth as nat,
            );
        }
        rest = vstd::slice::slice_subrange(rest, k, rest.len());
        left = left - 1;
    }
    Ok(bytes.len() - rest.len())
}

/// Skips the encoding of type `ty` at the front of `bytes`, returning the
/// bytes consumed. This validates structure and bounds exactly as a
/// decode does, without producing output: its result agrees with
/// [`skip_len`], the model that decoding is also held to.
pub fn skip_value(reg: &Registry, ty: u32, bytes: &[u8], depth: u32) -> (r: Result<
    usize,
    DecodeError,
>)
    ensures
        match r {
            Ok(k) => skip_len(reg@, ty, bytes@, depth as nat)
                == Ok::<int, DecodeError>(k as int) && k <= bytes@.len(),
            Err(e) => skip_len(reg@, ty, bytes@, depth as nat) == Err::<int, DecodeError>(e),
        },
    decreases depth, 0nat,
{
    if depth == 0 {
        return Err(DecodeError::DepthLimitReached);
    }
    let info = match reg.resolve(ty) {
        Some(info) => info,
        None => {
            return Err(DecodeError::TypeIdNotFound(ty));
        },
    };
    match &info.def {
        TypeDef::Primitive(p) => skip_prim(*p, bytes),
        TypeDef::Compact(kind) => {
            let (v, k) = decode_compact(bytes)?;
            if v <= compact_kind_max_exec(*kind) {
                Ok(k)
            } else {
                Err(DecodeError::InvalidCompactEncoding)
            }
        },
        TypeDef::Composite(fields) => skip_fields(reg, fields.as_slice(), bytes, depth - 1),
        TypeDef::Tuple(fields) => skip_fields(reg, fields.as_slice(), bytes, depth - 1),
        TypeDef::Array(n, elem) => skip_repeat(reg, *elem, *n as u128, bytes, depth - 1),
        TypeDef::Sequence(elem) => {
            let (n, k) = decode_compact(bytes)?;
            if n > u32::MAX as u128 {
                return Err(DecodeError::InvalidCompactEncoding);
            }
            let rest = vstd::slice::slice_subrange(bytes, k, bytes.len());
            let l = skip_repeat(reg, *elem, n, rest, depth - 1)?;
            Ok(k + l)
        },
        TypeDef::Variant(alts) => {
            if bytes.len() < 1 {
                return Err(DecodeError::NotEnoughBytes);
            }
            let d = bytes[0];
            let alt = match find_variant_ref(alts, d) {
                Some(alt) => alt,
                None => {
                    return Err(DecodeError::VariantNotFound(d));
                },
            };
            let rest = vstd::slice::slice_subrange(bytes, 1, bytes.len());
            let l = skip_fields(reg, alt.fields.as_slice(), rest, depth - 1)?;
            Ok(1 + l)
        },
        TypeDef::BitSequence => {
            let (n, k) = decode_compact(bytes)?;
            if n > u32::MAX as u128 {
                return Err(DecodeError::InvalidCompactEncoding);
            }
            let m: u128 = n / 8 + if n % 8 != 0 { 1u128 } else { 0u128 };
            assert(m == (n + 7) as int / 8);
            if ((bytes.len() - k) as u128) >= m {
                Ok(k + (m as usize))
            } else {
                Err(DecodeError::NotEnoughBytes)
            }
        },
    }
}

/// Skips a primitive at the front of `bytes`, validating it as a decode
/// would.
pub fn skip_prim(p: Primitive, bytes: &[u8]) -> (r: Result<usize, DecodeError>)
    ensures
        match r {
            Ok(k) => prim_skip_len(p, bytes@) == Ok::<int, DecodeError>(k as int) && k <= bytes@.len(),
            Err(e) => prim_skip_len(p, bytes@) == Err::<int, DecodeError>(e),
        },
{
    match p {
        Primitive::Str => {
            let (n, k) = decode_compact(bytes)?;
            if n > u32::MAX as u128 {
                return Err(DecodeError::InvalidCompactEncoding);
            }
            if ((bytes.len() - k) as u128) >= n {
                Ok(k + (n as usize))
            } else {
                Err(DecodeError::NotEnoughBytes)
            }
        },
        Primitive::Char => {
            if bytes.len() < 4 {
                return Err(DecodeError::NotEnoughBytes);
            }
            let v = crate::bytes::read_uint_le(bytes, 4) as u32;
            proof {
                crate::bytes::lemma_le_uint_bound(bytes@.take(4));
                assert(crate::bytes::pow256(4) == 0x100000000) by {
                    reveal_with_fuel(crate::bytes::pow256, 5);
                }
            }
            if v < 0xD800 || (0xE000 <= v && v <= 0x10FFFF) {
                Ok(4)
            } else {
                Err(DecodeError::InvalidChar(v))
            }
        },
        Primitive::Bool => {
            if bytes.len() < 1 {
                return Err(DecodeError::NotEnoughBytes);
            }
            let b = bytes[0];
            if b == 0 || b == 1 {
                Ok(1)
            } else {
                Err(DecodeError::InvalidBool(b))
            }
        },
        _ => {
            let w = prim_width_exec(p);
            if bytes.len() >= w {
                Ok(w)
            } else {
                Err(DecodeError::NotEnoughBytes)
            }
        },
    }
}

/// The byte width of a fixed-width primitive other than `Str`.
pub fn prim_width_exec(p: Primitive) -> (w: usize)
    requires
        p != Primitive::Str,
    ensures
        prim_fixed_width(p) == Some(w as int),
{
    match p {
        Primitive::Bool => 1,
        Primitive::U8 => 1,
        Primitive::I8 => 1,
        Primitive::U16 => 2,
        Primitive::I16 => 2,
        Primitive::Char => 4,
        Primitive::U32 => 4,
        Primitive::I32 => 4,
        Primitive::U64 => 8,
        Primitive::I64 => 8,
        Primitive::U128 => 16,
        Primitive::I128 => 16,
        Primitive::U256 => 32,
        Primitive::I256 => 32,
        Primitive::Str => 0,
    }
}

/// The largest value a compact encoding of the given width may hold.
pub fn compact_kind_max_exec(kind: CompactKind) -> (m: u128)
    ensures
        m == compact_kind_max(kind),
{
    match kind {
        CompactKind::U8 => u8::MAX as u128,
        CompactKind::U16 => u16::MAX as u128,
        CompactKind::U32 => u32::MAX as u128,
        CompactKind::U64 => u64::MAX as u128,
        CompactKind::U128 => u128::MAX,
    }
}

/// The first alternative whose discriminant is `d`, by reference.
pub fn find_variant_ref<'a>(alts: &'a Vec<VariantDef>, d: u8) -> (r: Option<&'a VariantDef>)
    ensures
        match r {
            Some(alt) => find_variant(alts@, d) == Some(*alt),
            None => find_variant(alts@, d) is None,
        },
{
    proof {
        assert(alts@.skip(0) =~= alts@);
    }
    let mut i: usize = 0;
    while i < alts.len()
        invariant
            i <= alts@.len(),
            find_variant(alts@, d) == find_variant(alts@.skip(i as int), d),
        decreases alts@.len() - i,
    {
        if alts[i].index == d {
            proof {
                assert(alts@.skip(i as int)[0] == alts@[i as int]);
            }
            return Some(&alts[i]);
        }
        proof {
            assert(alts@.skip(i as int).drop_first() =~= alts@.skip(i as int + 1));
        }
        i = i + 1;
    }
    proof {
        assert(alts@.skip(i as int) =~= Seq::<VariantDef>::empty());
    }
    None
}

} // verus!
