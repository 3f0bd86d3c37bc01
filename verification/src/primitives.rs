//! Verified decoders for the fixed-width primitive values.
//!
//! Each one consumes exactly the width of its kind from the front of the
//! input, produces the little-endian value stored there, and reports
//! [`DecodeError::NotEnoughBytes`] when even one byte is missing.

use vstd::prelude::*;

use crate::bytes::{le_sint, le_uint, lemma_le_uint_bound, pow256, read_uint_le};
use crate::error::DecodeError;
use crate::shape::is_unicode_scalar;
use crate::trusted::char_from_u32;

verus! {

/// Decodes a boolean from one byte; only zero and one are accepted.
pub fn decode_bool(bytes: &[u8]) -> (r: Result<bool, DecodeError>)
    ensures
        bytes@.len() == 0 ==> r == Err::<bool, DecodeError>(DecodeError::NotEnoughBytes),
        bytes@.len() > 0 && bytes@[0] == 0 ==> r == Ok::<bool, DecodeError>(false),
        bytes@.len() > 0 && bytes@[0] == 1 ==> r == Ok::<bool, DecodeError>(true),
        bytes@.len() > 0 && bytes@[0] > 1 ==> r == Err::<bool, DecodeError>(
            DecodeError::InvalidBool(bytes@[0]),
        ),
{
    if bytes.len() < 1 {
        return Err(DecodeError::NotEnoughBytes);
    }
    let b = bytes[0];
    if b == 0 {
        Ok(false)
    } else if b == 1 {
        Ok(true)
    } else {
        Err(DecodeError::InvalidBool(b))
    }
}

/// Decodes a character from four little-endian bytes; fails on values
/// that are not Unicode scalar values.
pub fn decode_char(bytes: &[u8]) -> (r: Result<char, DecodeError>)
    ensures
        bytes@.len() < 4 ==> r == Err::<char, DecodeError>(DecodeError::NotEnoughBytes),
        bytes@.len() >= 4 ==> {
            let v = le_uint(bytes@.take(4)) as u32;
            match r {
                Ok(c) => is_unicode_scalar(v) && c as u32 == v,
                Err(e) => !is_unicode_scalar(v) && e == DecodeError::InvalidChar(v),
            }
        },
{
    if bytes.len() < 4 {
        return Err(DecodeError::NotEnoughBytes);
    }
    let v = read_uint_le(bytes, 4) as u32;
    proof {
        lemma_le_uint_bound(bytes@.take(4));
        assert(pow256(4) == 0x100000000) by {
            reveal_with_fuel(pow256, 5);
        }
    }
    match char_from_u32(v) {
        Some(c) => Ok(c),
        None => Err(DecodeError::InvalidChar(v)),
    }
}

/// Decodes an unsigned little-endian integer of width `w` bytes, `w` at
/// most 16.
pub fn decode_uint(bytes: &[u8], w: usize) -> (r: Result<u128, DecodeError>)
    requires
        w <= 16,
    ensures
        bytes@.len() < w ==> r == Err::<u128, DecodeError>(DecodeError::NotEnoughBytes),
        bytes@.len() >= w ==> (r matches Ok(v) && v == le_uint(bytes@.take(w as int)) && v
            < pow256(w as nat)),
{
    if bytes.len() < w {
        return Err(DecodeError::NotEnoughBytes);
    }
    Ok(read_uint_le(bytes, w))
}

/// Decodes a signed (two's-complement) little-endian integer of width
/// `w` bytes, `w` at most 16. The value is returned as an `i128`.
pub fn decode_sint(bytes: &[u8], w: usize) -> (r: Result<i128, DecodeError>)
    requires
        1 <= w <= 16,
    ensures
        bytes@.len() < w ==> r == Err::<i128, DecodeError>(DecodeError::NotEnoughBytes),
        bytes@.len() >= w ==> (r matches Ok(v) && v as int == le_sint(bytes@.take(w as int))),
{
    if bytes.len() < w {
        return Err(DecodeError::NotEnoughBytes);
    }
    let u = read_uint_le(bytes, w);
    let ghost s = bytes@.take(w as int);
    proof {
        lemma_le_uint_bound(s);
        crate::bytes::lemma_pow256_increases(w as nat, 16);
        assert(pow256(16) == 0x100000000000000000000000000000000) by {
            reveal_with_fuel(pow256, 17);
        }
    }
    let half = half_pow256(w);
    if u < half {
        Ok(u as i128)
    } else {
        let flipped = max_uint(w) - u;
        Ok(-(flipped as i128) - 1)
    }
}

/// `256^w / 2`: the first unsigned value whose two's-complement reading
/// of width `w` is negative.
fn half_pow256(w: usize) -> (r: u128)
    requires
        1 <= w <= 16,
    ensures
        2 * r == pow256(w as nat),
{
    proof {
        reveal_with_fuel(pow256, 17);
    }
    let mut r: u128 = 128;
    let mut i: usize = 1;
    while i < w
        invariant
            1 <= i <= w <= 16,
            2 * r == pow256(i as nat),
            pow256(16) == 0x100000000000000000000000000000000,
        decreases w - i,
    {
        proof {
            crate::bytes::lemma_pow256_increases((i + 1) as nat, 16);
        }
        r = r * 256;
        i = i + 1;
    }
    r
}

/// `256^w - 1`: the largest unsigned value of width `w`.
fn max_uint(w: usize) -> (r: u128)
    requires
        1 <= w <= 16,
    ensures
        r == pow256(w as nat) - 1,
{
    let h = half_pow256(w);
    proof {
        crate::bytes::lemma_pow256_pos(w as nat);
        crate::bytes::lemma_pow256_increases(w as nat, 16);
        assert(pow256(16) == 0x100000000000000000000000000000000) by {
            reveal_with_fuel(pow256, 17);
        }
    }
    (h - 1) + h
}

} // verus!
