//! The compact (variable-length, prefix-coded) unsigned integer encoding.
//!
//! The two low bits of the first byte select a mode: the value packed in
//! the remaining six bits (one byte in all); a 14-bit value over two bytes;
//! a 30-bit value over four bytes; or a count of following little-endian
//! bytes. Each mode is only valid for the values that no smaller mode can
//! hold, so every value has exactly one encoding.

use vstd::prelude::*;

use crate::bytes::{le_uint, pow256, read_uint_le, lemma_le_uint_bound, lemma_pow256_increases};
use crate::error::DecodeError;
use crate::registry::CompactKind;

verus! {

/// The value and consumed byte count of the compact integer at the front
/// of `bytes`; `None` when the prefix is truncated, malformed or
/// non-minimal.
pub open spec fn compact_decode(bytes: Seq<u8>) -> Option<(u128, int)> {
    if bytes.len() == 0 {
        None
    } else {
        let b0 = bytes[0];
        if b0 % 4 == 0 {
            Some(((b0 / 4) as u128, 1))
        } else if b0 % 4 == 1 {
            if bytes.len() < 2 {
                None
            } else {
                let v = b0 / 4 + 64 * (bytes[1] as int);
                if v > 63 {
                    Some((v as u128, 2))
                } else {
                    None
                }
            }
        } else if b0 % 4 == 2 {
            if bytes.len() < 4 {
                None
            } else {
                let v = b0 / 4 + 64 * le_uint(bytes.subrange(1, 4));
                if v > 0x3fff {
                    Some((v as u128, 4))
                } else {
                    None
                }
            }
        } else {
            let m = b0 / 4 + 4;
            if m > 16 || bytes.len() < 1 + m {
                None
            } else {
                let v = le_uint(bytes.subrange(1, 1 + m));
                if (m == 4 && v > 0x3fffffff) || (m > 4 && v >= pow256((m - 1) as nat)) {
                    Some((v as u128, 1 + m))
                } else {
                    None
                }
            }
        }
    }
}

/// The compact prefix is read from its own bytes alone: truncating the
/// input anywhere at or after its end leaves the result unchanged.
pub proof fn lemma_compact_decode_take(bytes: Seq<u8>, j: int)
    requires
        compact_decode(bytes) is Some,
        compact_decode(bytes)->Some_0.1 <= j <= bytes.len(),
    ensures
        compact_decode(bytes.take(j)) == compact_decode(bytes),
{
    let t = bytes.take(j);
    assert(t[0] == bytes[0]);
    let b0 = bytes[0];
    if b0 % 4 == 1 {
        assert(t[1] == bytes[1]);
    } else if b0 % 4 == 2 {
        assert(t.subrange(1, 4) =~= bytes.subrange(1, 4));
    } else if b0 % 4 == 3 {
        let m = b0 / 4 + 4;
        if m <= 16 {
            assert(t.subrange(1, 1 + m) =~= bytes.subrange(1, 1 + m));
        }
    }
}

/// The largest value a compact encoding of the given width may hold.
pub open spec fn compact_kind_max(kind: CompactKind) -> u128 {
    match kind {
        CompactKind::U8 => u8::MAX as u128,
        CompactKind::U16 => u16::MAX as u128,
        CompactKind::U32 => u32::MAX as u128,
        CompactKind::U64 => u64::MAX as u128,
        CompactKind::U128 => u128::MAX,
    }
}

/// Decodes the compact integer at the front of `bytes`, returning the
/// value and the number of bytes it occupied.
pub fn decode_compact(bytes: &[u8]) -> (r: Result<(u128, usize), DecodeError>)
    ensures
        match r {
            Ok((v, n)) => compact_decode(bytes@) == Some((v, n as int)) && n <= bytes@.len(),
            Err(e) => compact_decode(bytes@) is None && e == DecodeError::InvalidCompactEncoding,
        },
{
    if bytes.len() == 0 {
        return Err(DecodeError::InvalidCompactEncoding);
    }
    let b0 = bytes[0];
    let mode = b0 % 4;
    if mode == 0 {
        Ok(((b0 / 4) as u128, 1))
    } else if mode == 1 {
        if bytes.len() < 2 {
            return Err(DecodeError::InvalidCompactEncoding);
        }
        let v: u128 = (b0 / 4) as u128 + 64 * (bytes[1] as u128);
        if v > 63 {
            Ok((v, 2))
        } else {
            Err(DecodeError::InvalidCompactEncoding)
        }
    } else if mode == 2 {
        if bytes.len() < 4 {
            return Err(DecodeError::InvalidCompactEncoding);
        }
        let rest = vstd::slice::slice_subrange(bytes, 1, 4);
        let high = read_uint_le(rest, 3);
        proof {
            assert(rest@.take(3) =~= bytes@.subrange(1, 4));
            lemma_le_uint_bound(bytes@.subrange(1, 4));
            assert(pow256(3) == 0x1000000) by {
                reveal_with_fuel(pow256, 4);
            }
        }
        let v: u128 = (b0 / 4) as u128 + 64 * high;
        if v > 0x3fff {
            Ok((v, 4))
        } else {
            Err(DecodeError::InvalidCompactEncoding)
        }
    } else {
        let m = (b0 / 4) as usize + 4;
        if m > 16 || bytes.len() < 1 + m {
            return Err(DecodeError::InvalidCompactEncoding);
        }
        let rest = vstd::slice::slice_subrange(bytes, 1, 1 + m);
        let v = read_uint_le(rest, m);
        proof {
            assert(rest@.take(m as int) =~= bytes@.subrange(1, 1 + m as int));
        }
        let ok = if m == 4 {
            v > 0x3fffffff
        } else {
            // Minimal encoding: the most significant byte is not zero,
            // so the value needs all m bytes.
            let threshold = threshold_pow256(m - 1);
            v >= threshold
        };
        if ok {
            Ok((v, 1 + m))
        } else {
            Err(DecodeError::InvalidCompactEncoding)
        }
    }
}

/// `256^n` as a `u128`, for `n` up to 15.
fn threshold_pow256(n: usize) -> (r: u128)
    requires
        n <= 15,
    ensures
        r == pow256(n as nat),
{
    proof {
        reveal_with_fuel(pow256, 16);
    }
    let mut r: u128 = 1;
    let mut i: usize = 0;
    while i < n
        invariant
            i <= n <= 15,
            r == pow256(i as nat),
            pow256(15) == 0x1000000000000000000000000000000,
        decreases n - i,
    {
        proof {
            lemma_pow256_increases((i + 1) as nat, 15);
        }
        r = r * 256;
        i = i + 1;
    }
    r
}

} // verus!
