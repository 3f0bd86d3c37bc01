//! The decoded view of a packed boolean run (bit sequence).
//!
//! The wire form is a compact bit count followed by the bits packed
//! eight to a byte, least significant bit first. The packing convention
//! is a private contract with the wire format; this view only hands the
//! booleans out.

use vstd::prelude::*;

verus! {

/// The bit of `bytes` at position `i`, packed least-significant-first
/// within each byte.
pub open spec fn bit_at(bytes: Seq<u8>, i: int) -> bool {
    (bytes[i / 8] >> ((i % 8) as u8)) & 1 == 1
}

/// A bit sequence value: `len` booleans packed into borrowed bytes.
pub struct BitSequence<'scale> {
    data: &'scale [u8],
    len: u32,
}

impl<'scale> BitSequence<'scale> {
    /// The packed bytes.
    pub closed spec fn data_spec(self) -> Seq<u8> {
        self.data@
    }

    /// The number of bits in the sequence.
    pub closed spec fn len_spec(self) -> u32 {
        self.len
    }

    /// The packed bytes hold exactly the declared bits.
    pub open spec fn wf(self) -> bool {
        self.data_spec().len() == (self.len_spec() + 7) as int / 8
    }

    /// A bit sequence of `len` bits packed into `data`.
    pub fn new(data: &'scale [u8], len: u32) -> (r: BitSequence<'scale>)
        requires
            data@.len() == (len + 7) as int / 8,
        ensures
            r.wf(),
            r.data_spec() == data@,
            r.len_spec() == len,
    {
        BitSequence { data, len }
    }

    /// The number of bits in the sequence.
    pub fn len(&self) -> (r: u32)
        ensures
            r == self.len_spec(),
    {
        self.len
    }

    /// The packed bytes the bits came from.
    pub fn bytes(&self) -> (r: &'scale [u8])
        ensures
            r@ == self.data_spec(),
    {
        self.data
    }

    /// The bit at position `i`.
    pub fn get(&self, i: u32) -> (r: bool)
        requires
            self.wf(),
            i < self.len_spec(),
        ensures
            r == bit_at(self.data_spec(), i as int),
    {
        let byte = self.data[(i / 8) as usize];
        (byte >> ((i % 8) as u8)) & 1 == 1
    }

    /// All the bits, in order, as a vector of booleans.
    pub fn to_bools(&self) -> (r: Vec<bool>)
        requires
            self.wf(),
        ensures
            r@.len() == self.len_spec() as int,
            forall|i: int|
                0 <= i < self.len_spec() as int ==> r@[i] == bit_at(self.data_spec(), i),
    {
        let mut out: Vec<bool> = Vec::new();
        let mut i: u32 = 0;
        while i < self.len
            invariant
                self.wf(),
                i <= self.len_spec(),
                out@.len() == i as int,
                forall|j: int| 0 <= j < i as int ==> out@[j] == bit_at(self.data_spec(), j),
            decreases self.len_spec() - i,
        {
            let b = self.get(i);
            out.push(b);
            i = i + 1;
        }
        out
    }
}

} // verus!
