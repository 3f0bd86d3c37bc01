//! Little-endian integer reading and byte-view bookkeeping primitives.

use vstd::prelude::*;

verus! {

/// 256 to the power `n`: the number of values `n` bytes can hold.
pub open spec fn pow256(n: nat) -> int
    decreases n,
{
    if n == 0 {
        1
    } else {
        256 * pow256((n - 1) as nat)
    }
}

/// The unsigned integer stored little-endian in `bytes`.
pub open spec fn le_uint(bytes: Seq<u8>) -> int
    decreases bytes.len(),
{
    if bytes.len() == 0 {
        0
    } else {
        bytes[0] + 256 * le_uint(bytes.drop_first())
    }
}

/// The two's-complement signed integer stored little-endian in `bytes`.
pub open spec fn le_sint(bytes: Seq<u8>) -> int {
    if 2 * le_uint(bytes) < pow256(bytes.len()) {
        le_uint(bytes)
    } else {
        le_uint(bytes) - pow256(bytes.len())
    }
}

/// `a` is the tail end of `b`: reading from `a` is reading from `b` after
/// some prefix has been consumed.
pub open spec fn suffix_of(a: Seq<u8>, b: Seq<u8>) -> bool {
    a.len() <= b.len() && a == b.skip(b.len() - a.len())
}

pub proof fn lemma_le_uint_bound(bytes: Seq<u8>)
    ensures
        0 <= le_uint(bytes) < pow256(bytes.len()),
    decreases bytes.len(),
{
    if bytes.len() > 0 {
        lemma_le_uint_bound(bytes.drop_first());
    }
}

pub proof fn lemma_pow256_pos(n: nat)
    ensures
        0 < pow256(n),
    decreases n,
{
    if n > 0 {
        lemma_pow256_pos((n - 1) as nat);
    }
}

pub proof fn lemma_pow256_increases(m: nat, n: nat)
    requires
        m <= n,
    ensures
        pow256(m) <= pow256(n),
    decreases n,
{
    lemma_pow256_pos(m);
    if m < n {
        lemma_pow256_increases(m, (n - 1) as nat);
        lemma_pow256_pos((n - 1) as nat);
    }
}

/// A suffix of a suffix is a suffix.
pub proof fn lemma_suffix_trans(a: Seq<u8>, b: Seq<u8>, c: Seq<u8>)
    requires
        suffix_of(a, b),
        suffix_of(b, c),
    ensures
        suffix_of(a, c),
{
    assert(a =~= c.skip(c.len() - a.len()));
}

/// Reads the unsigned little-endian integer in the first `n` bytes.
pub fn read_uint_le(bytes: &[u8], n: usize) -> (r: u128)
    requires
        n <= 16,
        n <= bytes@.len(),
    ensures
        r == le_uint(bytes@.take(n as int)),
        r < pow256(n as nat),
{
    proof {
        assert(pow256(16) == 0x100000000000000000000000000000000) by {
            reveal_with_fuel(pow256, 17);
        }
    }
    let mut r: u128 = 0;
    let mut k: usize = n;
    while k > 0
        invariant
            k <= n <= 16,
            n <= bytes@.len(),
            r == le_uint(bytes@.subrange(k as int, n as int)),
            r < pow256((n - k) as nat),
            pow256(16) == 0x100000000000000000000000000000000,
        decreases k,
    {
        proof {
            lemma_pow256_increases((n - k) as nat, 15);
            assert(pow256(15) * 256 == pow256(16));
            let tail = bytes@.subrange(k as int - 1, n as int);
            assert(tail.drop_first() =~= bytes@.subrange(k as int, n as int));
        }
        r = r * 256 + bytes[k - 1] as u128;
        k = k - 1;
    }
    proof {
        assert(bytes@.subrange(0, n as int) =~= bytes@.take(n as int));
    }
    r
}

} // verus!
