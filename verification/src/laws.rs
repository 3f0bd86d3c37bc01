//! Properties of the consumption model that hold across operations.
//!
//! Every consuming operation's contract is stated against
//! [`skip_len`]: a visitor-driven decode and a visitor-free skip of the
//! same value both consume exactly its `Ok` count. The lemmas here say
//! that this count does not depend on the nesting budget, so any two
//! successful passes over the same value — skipping, decoding, with any
//! visitors, under any budgets — consume the same bytes and leave the
//! same undecoded tail.

use vstd::prelude::*;

use crate::compact::{compact_decode, lemma_compact_decode_take};
use crate::error::DecodeError;
use crate::registry::{field_ids, find_variant, Primitive, TypeDef, TypeInfo};
use crate::shape::{
    items_skip_len, lemma_items_skip_len_in_bounds, lemma_skip_len_in_bounds, prim_skip_len,
    repeat_ty, skip_len,
};

verus! {

/// A result that was not the depth limit does not change when the
/// budget grows.
pub proof fn lemma_skip_len_fuel_mono(
    reg: Seq<TypeInfo>,
    ty: u32,
    bytes: Seq<u8>,
    fuel1: nat,
    fuel2: nat,
)
    requires
        fuel1 <= fuel2,
        skip_len(reg, ty, bytes, fuel1) != Err::<int, DecodeError>(
            DecodeError::DepthLimitReached,
        ),
    ensures
        skip_len(reg, ty, bytes, fuel2) == skip_len(reg, ty, bytes, fuel1),
    decreases fuel1, 0nat,
{
    if fuel1 == 0 || ty as int >= reg.len() {
    } else {
        match reg[ty as int].def {
            TypeDef::Composite(fields) => {
                lemma_items_skip_len_fuel_mono(
                    reg,
                    field_ids(fields@),
                    bytes,
                    (fuel1 - 1) as nat,
                    (fuel2 - 1) as nat,
                );
            },
            TypeDef::Tuple(fields) => {
                lemma_items_skip_len_fuel_mono(
                    reg,
                    field_ids(fields@),
                    bytes,
                    (fuel1 - 1) as nat,
                    (fuel2 - 1) as nat,
                );
            },
            TypeDef::Array(n, elem) => {
                lemma_items_skip_len_fuel_mono(
                    reg,
                    repeat_ty(elem, n as nat),
                    bytes,
                    (fuel1 - 1) as nat,
                    (fuel2 - 1) as nat,
                );
            },
            TypeDef::Sequence(elem) => {
                match crate::compact::compact_decode(bytes) {
                    Some((n, k)) => {
                        if n <= u32::MAX as u128 {
                            lemma_items_skip_len_fuel_mono(
                                reg,
                                repeat_ty(elem, n as nat),
                                bytes.skip(k),
                                (fuel1 - 1) as nat,
                                (fuel2 - 1) as nat,
                            );
                        }
                    },
                    None => {},
                }
            },
            TypeDef::Variant(alts) => {
                if bytes.len() >= 1 {
                    match find_variant(alts@, bytes[0]) {
                        Some(alt) => {
                            lemma_items_skip_len_fuel_mono(
                                reg,
                                field_ids(alt.fields@),
                                bytes.skip(1),
                                (fuel1 - 1) as nat,
                                (fuel2 - 1) as nat,
                            );
                        },
                        None => {},
                    }
                }
            },
            _ => {},
        }
    }
}

/// As [`lemma_skip_len_fuel_mono`], for a list of items.
pub proof fn lemma_items_skip_len_fuel_mono(
    reg: Seq<TypeInfo>,
    tys: Seq<u32>,
    bytes: Seq<u8>,
    fuel1: nat,
    fuel2: nat,
)
    requires
        fuel1 <= fuel2,
        items_skip_len(reg, tys, bytes, fuel1) != Err::<int, DecodeError>(
            DecodeError::DepthLimitReached,
        ),
    ensures
        items_skip_len(reg, tys, bytes, fuel2) == items_skip_len(reg, tys, bytes, fuel1),
    decreases fuel1, tys.len() + 1,
{
    if tys.len() == 0 {
    } else {
        lemma_skip_len_fuel_mono(reg, tys[0], bytes, fuel1, fuel2);
        match skip_len(reg, tys[0], bytes, fuel1) {
            Ok(k) => {
                lemma_items_skip_len_fuel_mono(reg, tys.drop_first(), bytes.skip(k), fuel1, fuel2);
            },
            Err(_) => {},
        }
    }
}

/// A primitive's encoding is read from its own bytes alone: truncating
/// the input anywhere at or after its end leaves the result unchanged.
pub proof fn lemma_prim_skip_len_take(p: Primitive, bytes: Seq<u8>, j: int)
    requires
        (prim_skip_len(p, bytes) matches Ok(k) && k <= j),
        j <= bytes.len(),
    ensures
        prim_skip_len(p, bytes.take(j)) == prim_skip_len(p, bytes),
{
    let t = bytes.take(j);
    match p {
        Primitive::Str => {
            match compact_decode(bytes) {
                Some((n, ck)) => {
                    lemma_compact_decode_take(bytes, j);
                },
                None => {},
            }
        },
        Primitive::Char => {
            assert(t.take(4) =~= bytes.take(4));
        },
        Primitive::Bool => {
            assert(t[0] == bytes[0]);
        },
        _ => {},
    }
}

/// A value's encoding is read from its own bytes alone: a successful
/// skip of type `ty` does not change when the input is truncated
/// anywhere at or after the consumed count. In particular the exact
/// byte window of a decoded value decodes again, on its own, to the
/// same consumption.
pub proof fn lemma_skip_len_take(reg: Seq<TypeInfo>, ty: u32, bytes: Seq<u8>, fuel: nat, j: int)
    requires
        (skip_len(reg, ty, bytes, fuel) matches Ok(k) && k <= j),
        j <= bytes.len(),
    ensures
        skip_len(reg, ty, bytes.take(j), fuel) == skip_len(reg, ty, bytes, fuel),
    decreases fuel, 0nat,
{
    let t = bytes.take(j);
    if fuel == 0 || ty as int >= reg.len() {
    } else {
        match reg[ty as int].def {
            TypeDef::Primitive(p) => {
                lemma_prim_skip_len_take(p, bytes, j);
            },
            TypeDef::Compact(kind) => {
                lemma_compact_decode_take(bytes, j);
            },
            TypeDef::Composite(fields) => {
                lemma_items_skip_len_take(reg, field_ids(fields@), bytes, (fuel - 1) as nat, j);
            },
            TypeDef::Tuple(fields) => {
                lemma_items_skip_len_take(reg, field_ids(fields@), bytes, (fuel - 1) as nat, j);
            },
            TypeDef::Array(n, elem) => {
                lemma_items_skip_len_take(reg, repeat_ty(elem, n as nat), bytes, (fuel - 1) as nat, j);
            },
            TypeDef::Sequence(elem) => {
                match compact_decode(bytes) {
                    Some((n, ck)) => {
                        if n <= u32::MAX as u128 {
                            lemma_items_skip_len_in_bounds(
                                reg,
                                repeat_ty(elem, n as nat),
                                bytes.skip(ck),
                                (fuel - 1) as nat,
                            );
                            lemma_compact_decode_take(bytes, j);
                            assert(t.skip(ck) =~= bytes.skip(ck).take(j - ck));
                            lemma_items_skip_len_take(
                                reg,
                                repeat_ty(elem, n as nat),
                                bytes.skip(ck),
                                (fuel - 1) as nat,
                                j - ck,
                            );
                        }
                    },
                    None => {},
                }
            },
            TypeDef::Variant(alts) => {
                if bytes.len() >= 1 {
                    match find_variant(alts@, bytes[0]) {
                    Some(alt) => {
                        lemma_items_skip_len_in_bounds(
                            reg,
                            field_ids(alt.fields@),
                            bytes.skip(1),
                            (fuel - 1) as nat,
                        );
                        assert(t[0] == bytes[0]);
                        assert(t.skip(1) =~= bytes.skip(1).take(j - 1));
                        lemma_items_skip_len_take(
                            reg,
                            field_ids(alt.fields@),
                            bytes.skip(1),
                            (fuel - 1) as nat,
                            j - 1,
                        );
                    },
                    None => {},
                    }
                }
            },
            TypeDef::BitSequence => {
                lemma_compact_decode_take(bytes, j);
            },
        }
    }
}

/// As [`lemma_skip_len_take`], for a list of items.
pub proof fn lemma_items_skip_len_take(
    reg: Seq<TypeInfo>,
    tys: Seq<u32>,
    bytes: Seq<u8>,
    fuel: nat,
    j: int,
)
    requires
        (items_skip_len(reg, tys, bytes, fuel) matches Ok(l) && l <= j),
        j <= bytes.len(),
    ensures
        items_skip_len(reg, tys, bytes.take(j), fuel) == items_skip_len(reg, tys, bytes, fuel),
    decreases fuel, tys.len() + 1,
{
    if tys.len() == 0 {
    } else {
        lemma_skip_len_in_bounds(reg, tys[0], bytes, fuel);
        match skip_len(reg, tys[0], bytes, fuel) {
            Ok(k0) => {
                lemma_items_skip_len_in_bounds(reg, tys.drop_first(), bytes.skip(k0), fuel);
                lemma_skip_len_take(reg, tys[0], bytes, fuel, j);
                assert(bytes.take(j).skip(k0) =~= bytes.skip(k0).take(j - k0));
                lemma_items_skip_len_take(reg, tys.drop_first(), bytes.skip(k0), fuel, j - k0);
            },
            Err(_) => {},
        }
    }
}

/// Skipping and decoding agree on the consumed byte count: whatever two
/// budgets sufficed to pass over the value of type `ty` at the front of
/// `bytes`, both passes consumed the same number of bytes. Together
/// with the operations' contracts — a visitor-driven decode and a skip
/// both consume exactly the count [`skip_len`] reports under their
/// budget — this says the undecoded tail after either pass is the same.
pub proof fn lemma_consumption_deterministic(
    reg: Seq<TypeInfo>,
    ty: u32,
    bytes: Seq<u8>,
    fuel1: nat,
    fuel2: nat,
    k1: int,
    k2: int,
)
    requires
        skip_len(reg, ty, bytes, fuel1) == Ok::<int, DecodeError>(k1),
        skip_len(reg, ty, bytes, fuel2) == Ok::<int, DecodeError>(k2),
    ensures
        k1 == k2,
{
    if fuel1 <= fuel2 {
        lemma_skip_len_fuel_mono(reg, ty, bytes, fuel1, fuel2);
    } else {
        lemma_skip_len_fuel_mono(reg, ty, bytes, fuel2, fuel1);
    }
}

} // verus!
