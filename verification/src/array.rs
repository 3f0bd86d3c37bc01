//! The lazy cursor over a fixed-length array value's encoding.

use vstd::prelude::*;

use crate::bytes::{lemma_suffix_trans, suffix_of};
use crate::engine::decode_with_visitor_depth;
use crate::error::{DecodeError, Error};
use crate::registry::{Registry, TypeInfo};
use crate::shape::{items_skip_len, repeat_ty, skip_len, skip_value};
use crate::visitor::Visitor;

verus! {

/// An array value's decode state: its byte window, the bytes not yet
/// decoded, and how many of its elements remain. The length comes from
/// the registry, so there is no length prefix.
pub struct Array<'scale, 'info> {
    bytes: &'scale [u8],
    item_bytes: &'scale [u8],
    elem: u32,
    remaining: u32,
    types: &'info Registry,
    depth: u32,
    start_count: Ghost<nat>,
    items_start: Ghost<Seq<u8>>,
}

impl<'scale, 'info> Array<'scale, 'info> {
    /// The byte view this value's encoding started at.
    pub closed spec fn start(self) -> Seq<u8> {
        self.bytes@
    }

    /// The bytes where the elements start; for an array, the same as
    /// [`Self::start`].
    pub closed spec fn elems_start(self) -> Seq<u8> {
        self.items_start@
    }

    /// The bytes not yet decoded.
    pub closed spec fn undecoded(self) -> Seq<u8> {
        self.item_bytes@
    }

    /// The element type identifier.
    pub closed spec fn elem_ty(self) -> u32 {
        self.elem
    }

    /// How many elements have not been decoded yet.
    pub closed spec fn remaining_count(self) -> nat {
        self.remaining as nat
    }

    /// How many elements the sequence started with.
    pub closed spec fn start_count_spec(self) -> nat {
        self.start_count@
    }

    /// The registry the element type resolves in.
    pub closed spec fn registry(self) -> Seq<TypeInfo> {
        self.types@
    }

    /// The nesting budget elements are decoded under.
    pub closed spec fn fuel(self) -> nat {
        self.depth as nat
    }

    /// The cursor's bookkeeping invariant.
    pub closed spec fn wf(self) -> bool {
        &&& suffix_of(self.item_bytes@, self.items_start@)
        &&& suffix_of(self.items_start@, self.bytes@)
        &&& match items_skip_len(
            self.types@,
            repeat_ty(self.elem, self.remaining as nat),
            self.item_bytes@,
            self.depth as nat,
        ) {
            Ok(l) => items_skip_len(
                self.types@,
                repeat_ty(self.elem, self.start_count@),
                self.items_start@,
                self.depth as nat,
            ) == Ok::<int, DecodeError>(
                self.items_start@.len() - self.item_bytes@.len() + l,
            ),
            Err(e) => items_skip_len(
                self.types@,
                repeat_ty(self.elem, self.start_count@),
                self.items_start@,
                self.depth as nat,
            ) == Err::<int, DecodeError>(e),
        }
    }

    /// What every pull through this cursor preserves.
    pub open spec fn preserves(pre: Self, post: Self) -> bool {
        &&& post.wf()
        &&& post.start() == pre.start()
        &&& post.elems_start() == pre.elems_start()
        &&& post.elem_ty() == pre.elem_ty()
        &&& post.start_count_spec() == pre.start_count_spec()
        &&& post.registry() == pre.registry()
        &&& post.fuel() == pre.fuel()
        &&& suffix_of(post.undecoded(), pre.undecoded())
    }

    /// A cursor for `count` elements of type `elem`, whose encodings
    /// start at the front of `bytes`.
    pub fn new(
        bytes: &'scale [u8],
        elem: u32,
        count: u32,
        types: &'info Registry,
        depth: u32,
    ) -> (r: Array<'scale, 'info>)
        ensures
            r.wf(),
            r.start() == bytes@,
            r.elems_start() == bytes@,
            r.undecoded() == bytes@,
            r.elem_ty() == elem,
            r.remaining_count() == count as nat,
            r.start_count_spec() == count as nat,
            r.registry() == types@,
            r.fuel() == depth as nat,
    {
        let r = Array {
            bytes,
            item_bytes: bytes,
            elem,
            remaining: count,
            types,
            depth,
            start_count: Ghost(count as nat),
            items_start: Ghost(bytes@),
        };
        proof {
            assert(suffix_of(bytes@, bytes@)) by {
                assert(bytes@.skip(0) =~= bytes@);
            }
        }
        r
    }

    /// After a successful pull of `k` bytes for one element, the
    /// narrowed state keeps the invariant and the accounting.
    proof fn lemma_advance(&self, k: int)
        requires
            self.wf(),
            self.remaining_count() > 0,
            skip_len(self.registry(), self.elem_ty(), self.undecoded(), self.fuel())
                == Ok::<int, DecodeError>(k),
            0 <= k <= self.undecoded().len(),
        ensures
            suffix_of(self.undecoded().skip(k), self.undecoded()),
            suffix_of(self.undecoded().skip(k), self.elems_start()),
            match items_skip_len(
                self.registry(),
                repeat_ty(self.elem_ty(), (self.remaining_count() - 1) as nat),
                self.undecoded().skip(k),
                self.fuel(),
            ) {
                Ok(l) => items_skip_len(
                    self.registry(),
                    repeat_ty(self.elem_ty(), self.start_count_spec()),
                    self.elems_start(),
                    self.fuel(),
                ) == Ok::<int, DecodeError>(
                    self.elems_start().len() - self.undecoded().len() + k + l,
                ),
                Err(e) => items_skip_len(
                    self.registry(),
                    repeat_ty(self.elem_ty(), self.start_count_spec()),
                    self.elems_start(),
                    self.fuel(),
                ) == Err::<int, DecodeError>(e),
            },
    {
        let ids = repeat_ty(self.elem_ty(), self.remaining_count());
        assert(ids.drop_first() =~= repeat_ty(self.elem_ty(), (self.remaining_count() - 1) as nat));
        assert(ids[0] == self.elem_ty());
        assert(suffix_of(self.undecoded().skip(k), self.undecoded())) by {
            assert(self.undecoded().skip(k) =~= self.undecoded().skip(
                self.undecoded().len() - self.undecoded().skip(k).len(),
            ));
        }
        lemma_suffix_trans(self.undecoded().skip(k), self.undecoded(), self.elems_start());
    }

    /// Skip over all bytes associated with this array's remaining
    /// elements.
    pub fn skip_decoding(&mut self) -> (r: Result<(), DecodeError>)
        requires
            old(self).wf(),
        ensures
            Self::preserves(*old(self), *final(self)),
            match r {
                Ok(()) => final(self).remaining_count() == 0 && items_skip_len(
                    old(self).registry(),
                    repeat_ty(old(self).elem_ty(), old(self).remaining_count()),
                    old(self).undecoded(),
                    old(self).fuel(),
                ) == Ok::<int, DecodeError>(
                    old(self).undecoded().len() - final(self).undecoded().len(),
                ) && items_skip_len(
                    old(self).registry(),
                    repeat_ty(old(self).elem_ty(), old(self).start_count_spec()),
                    old(self).elems_start(),
                    old(self).fuel(),
                ) == Ok::<int, DecodeError>(
                    old(self).elems_start().len() - final(self).undecoded().len(),
                ),
                Err(e) => items_skip_len(
                    old(self).registry(),
                    repeat_ty(old(self).elem_ty(), old(self).remaining_count()),
                    old(self).undecoded(),
                    old(self).fuel(),
                ) == Err::<int, DecodeError>(e),
            },
    {
        let ghost entry = *self;
        proof {
            assert(suffix_of(self.item_bytes@, self.item_bytes@)) by {
                assert(self.item_bytes@.skip(0) =~= self.item_bytes@);
            }
        }
        while self.remaining > 0
            invariant
                entry == *old(self),
                self.wf(),
                Self::preserves(entry, *self),
                match items_skip_len(
                    self.registry(),
                    repeat_ty(self.elem_ty(), self.remaining_count()),
                    self.undecoded(),
                    self.fuel(),
                ) {
                    Ok(l) => items_skip_len(
                        entry.registry(),
                        repeat_ty(entry.elem_ty(), entry.remaining_count()),
                        entry.undecoded(),
                        entry.fuel(),
                    ) == Ok::<int, DecodeError>(
                        entry.undecoded().len() - self.undecoded().len() + l,
                    ),
                    Err(e) => items_skip_len(
                        entry.registry(),
                        repeat_ty(entry.elem_ty(), entry.remaining_count()),
                        entry.undecoded(),
                        entry.fuel(),
                    ) == Err::<int, DecodeError>(e),
                },
            decreases self.remaining,
        {
            let ghost prev = *self;
            let k = match skip_value(self.types, self.elem, self.item_bytes, self.depth) {
                Ok(k) => k,
                Err(e) => {
                    return Err(e);
                },
            };
            proof {
                self.lemma_advance(k as int);
            }
            self.item_bytes = vstd::slice::slice_subrange(self.item_bytes, k, self.item_bytes.len());
            self.remaining = self.remaining - 1;
            proof {
                assert(self.item_bytes@ =~= prev.item_bytes@.skip(k as int));
                lemma_suffix_trans(self.item_bytes@, prev.item_bytes@, entry.item_bytes@);
                lemma_suffix_trans(self.item_bytes@, prev.item_bytes@, prev.items_start@);
                lemma_suffix_trans(self.item_bytes@, prev.items_start@, prev.bytes@);
            }
        }
        Ok(())
    }

    /// The bytes representing this array value and anything after it.
    pub fn bytes_from_start(&self) -> (r: &'scale [u8])
        ensures
            r@ == self.start(),
    {
        self.bytes
    }

    /// The bytes that have not yet been decoded, and anything after the
    /// array value.
    pub fn bytes_from_undecoded(&self) -> (r: &'scale [u8])
        ensures
            r@ == self.undecoded(),
    {
        self.item_bytes
    }

    /// The number of un-decoded elements remaining.
    pub fn remaining(&self) -> (r: u32)
        ensures
            r as nat == self.remaining_count(),
    {
        self.remaining
    }

    /// The element type identifier.
    pub fn element_type(&self) -> (r: u32)
        ensures
            r == self.elem_ty(),
    {
        self.elem
    }

    /// Decode the next element by handing it to a visitor; `None` once
    /// no elements remain. On an error the cursor is left as it was.
    pub fn decode_item<V: Visitor>(&mut self, visitor: V) -> (r: Option<
        Result<V::Value, Error<V::Error>>,
    >)
        requires
            old(self).wf(),
        ensures
            Self::preserves(*old(self), *final(self)),
            match r {
                None => old(self).remaining_count() == 0 && *final(self) == *old(self),
                Some(Ok(_)) => old(self).remaining_count() > 0 && final(self).remaining_count()
                    == old(self).remaining_count() - 1 && skip_len(
                    old(self).registry(),
                    old(self).elem_ty(),
                    old(self).undecoded(),
                    old(self).fuel(),
                ) == Ok::<int, DecodeError>(
                    old(self).undecoded().len() - final(self).undecoded().len(),
                ) && final(self).undecoded() == old(self).undecoded().skip(
                    old(self).undecoded().len() - final(self).undecoded().len(),
                ),
                Some(Err(_)) => old(self).remaining_count() > 0 && *final(self) == *old(self),
            },
            r matches Some(p) ==> crate::engine::pre_visitor_err(
                p,
                old(self).registry(),
                old(self).elem_ty(),
                old(self).undecoded(),
                old(self).fuel(),
            ),
    {
        proof {
            assert(suffix_of(self.item_bytes@, self.item_bytes@)) by {
                assert(self.item_bytes@.skip(0) =~= self.item_bytes@);
            }
        }
        if self.remaining == 0 {
            return None;
        }
        match decode_with_visitor_depth(self.item_bytes, self.elem, self.types, visitor, self.depth) {
            Ok((v, rest)) => {
                proof {
                    let k = self.item_bytes@.len() - rest@.len();
                    assert(rest@ =~= self.undecoded().skip(k));
                    self.lemma_advance(k);
                }
                self.item_bytes = rest;
                self.remaining = self.remaining - 1;
                Some(Ok(v))
            },
            Err(e) => Some(Err(e)),
        }
    }
}

} // verus!
