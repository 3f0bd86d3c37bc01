//! The lazy cursor over a struct-like (composite) value's encoding.

use vstd::prelude::*;

use crate::bytes::{lemma_suffix_trans, suffix_of};
use crate::engine::decode_with_visitor_depth;
use crate::error::{DecodeError, Error};
use crate::registry::{field_ids, Field, Registry, TypeInfo};
use crate::shape::{items_skip_len, skip_len, skip_value};
use crate::visitor::Visitor;

verus! {

/// A composite value's decode state: the bytes the value started at, the
/// bytes not yet decoded, and the fields not yet decoded. Pulling one
/// item decodes one field and shrinks both views; once no fields remain,
/// the undecoded bytes are exactly the bytes after the whole value.
pub struct Composite<'scale, 'info> {
    bytes: &'scale [u8],
    item_bytes: &'scale [u8],
    path: &'info [String],
    fields: &'info [Field],
    types: &'info Registry,
    depth: u32,
    start_ids: Ghost<Seq<u32>>,
}

impl<'scale, 'info> Composite<'scale, 'info> {
    /// The byte view this value's encoding started at.
    pub closed spec fn start(self) -> Seq<u8> {
        self.bytes@
    }

    /// The bytes not yet decoded.
    pub closed spec fn undecoded(self) -> Seq<u8> {
        self.item_bytes@
    }

    /// The fields not yet decoded.
    pub closed spec fn remaining_fields(self) -> Seq<Field> {
        self.fields@
    }

    /// The type identifiers of the fields not yet decoded.
    pub open spec fn remaining_ids(self) -> Seq<u32> {
        field_ids(self.remaining_fields())
    }

    /// The type identifiers this cursor started with.
    pub closed spec fn all_ids(self) -> Seq<u32> {
        self.start_ids@
    }

    /// The registry the field types resolve in.
    pub closed spec fn registry(self) -> Seq<TypeInfo> {
        self.types@
    }

    /// The nesting budget items are decoded under.
    pub closed spec fn fuel(self) -> nat {
        self.depth as nat
    }

    /// The path of the composite type.
    pub closed spec fn path_spec(self) -> Seq<String> {
        self.path@
    }

    /// The bytes consumed from this cursor so far.
    pub open spec fn consumed(self) -> int {
        self.start().len() - self.undecoded().len()
    }

    /// The cursor's bookkeeping invariant: the undecoded bytes are a tail
    /// of the starting bytes, and decoding the remaining fields from them
    /// accounts exactly for the whole field list over the whole window.
    pub closed spec fn wf(self) -> bool {
        &&& suffix_of(self.item_bytes@, self.bytes@)
        &&& match items_skip_len(
            self.types@,
            field_ids(self.fields@),
            self.item_bytes@,
            self.depth as nat,
        ) {
            Ok(l) => items_skip_len(self.types@, self.start_ids@, self.bytes@, self.depth as nat)
                == Ok::<int, DecodeError>(self.bytes@.len() - self.item_bytes@.len() + l),
            Err(e) => items_skip_len(self.types@, self.start_ids@, self.bytes@, self.depth as nat)
                == Err::<int, DecodeError>(e),
        }
    }

    /// What every pull through this cursor preserves: its window, field
    /// list, registry and budget, and the invariant.
    pub open spec fn preserves(pre: Self, post: Self) -> bool {
        &&& post.wf()
        &&& post.start() == pre.start()
        &&& post.all_ids() == pre.all_ids()
        &&& post.registry() == pre.registry()
        &&& post.fuel() == pre.fuel()
        &&& post.path_spec() == pre.path_spec()
        &&& suffix_of(post.undecoded(), pre.undecoded())
    }

    /// A cursor at the start of a composite value's encoding.
    pub fn new(
        bytes: &'scale [u8],
        path: &'info [String],
        fields: &'info [Field],
        types: &'info Registry,
        depth: u32,
    ) -> (r: Composite<'scale, 'info>)
        ensures
            r.wf(),
            r.start() == bytes@,
            r.undecoded() == bytes@,
            r.remaining_fields() == fields@,
            r.all_ids() == field_ids(fields@),
            r.registry() == types@,
            r.fuel() == depth as nat,
            r.path_spec() == path@,
    {
        let r = Composite {
            bytes,
            path,
            item_bytes: bytes,
            fields,
            types,
            depth,
            start_ids: Ghost(field_ids(fields@)),
        };
        proof {
            assert(suffix_of(bytes@, bytes@)) by {
                assert(bytes@.skip(0) =~= bytes@);
            }
        }
        r
    }

    /// Skip over all bytes associated with this composite type. After
    /// calling this, [`Self::bytes_from_undecoded`] is the bytes after
    /// this composite value.
    pub fn skip_decoding(&mut self) -> (r: Result<(), DecodeError>)
        requires
            old(self).wf(),
        ensures
            Self::preserves(*old(self), *final(self)),
            match r {
                Ok(()) => final(self).remaining_ids().len() == 0 && items_skip_len(
                    old(self).registry(),
                    old(self).remaining_ids(),
                    old(self).undecoded(),
                    old(self).fuel(),
                ) == Ok::<int, DecodeError>(
                    old(self).undecoded().len() - final(self).undecoded().len(),
                ) && items_skip_len(
                    old(self).registry(),
                    old(self).all_ids(),
                    old(self).start(),
                    old(self).fuel(),
                ) == Ok::<int, DecodeError>(
                    old(self).start().len() - final(self).undecoded().len(),
                ),
                Err(e) => items_skip_len(
                    old(self).registry(),
                    old(self).remaining_ids(),
                    old(self).undecoded(),
                    old(self).fuel(),
                ) == Err::<int, DecodeError>(e),
            },
    {
        let ghost entry = *self;
        proof {
            assert(suffix_of(self.item_bytes@, self.item_bytes@)) by {
                assert(self.item_bytes@.skip(0) =~= self.item_bytes@);
            }
        }
        while self.fields.len() > 0
            invariant
                entry == *old(self),
                self.wf(),
                Self::preserves(entry, *self),
                entry.wf(),
                match items_skip_len(
                    self.registry(),
                    self.remaining_ids(),
                    self.undecoded(),
                    self.fuel(),
                ) {
                    Ok(l) => items_skip_len(
                        entry.registry(),
                        entry.remaining_ids(),
                        entry.undecoded(),
                        entry.fuel(),
                    ) == Ok::<int, DecodeError>(
                        entry.undecoded().len() - self.undecoded().len() + l,
                    ),
                    Err(e) => items_skip_len(
                        entry.registry(),
                        entry.remaining_ids(),
                        entry.undecoded(),
                        entry.fuel(),
                    ) == Err::<int, DecodeError>(e),
                },
            decreases self.fields@.len(),
        {
            let ghost prev = *self;
            let ty = self.fields[0].ty;
            let k = match skip_value(self.types, ty, self.item_bytes, self.depth) {
                Ok(k) => k,
                Err(e) => {
                    return Err(e);
                },
            };
            proof {
                self.lemma_advance(k as int);
            }
            self.item_bytes = vstd::slice::slice_subrange(self.item_bytes, k, self.item_bytes.len());
            self.fields = vstd::slice::slice_subrange(self.fields, 1, self.fields.len());
            proof {
                assert(self.item_bytes@ =~= prev.item_bytes@.skip(k as int));
                lemma_suffix_trans(self.item_bytes@, prev.item_bytes@, entry.item_bytes@);
                lemma_suffix_trans(self.item_bytes@, prev.item_bytes@, prev.bytes@);
            }
        }
        Ok(())
    }

    /// After a successful pull of `k` bytes for the first remaining
    /// field, the narrowed state keeps the invariant and the accounting.
    proof fn lemma_advance(&self, k: int)
        requires
            self.wf(),
            self.remaining_fields().len() > 0,
            skip_len(self.registry(), self.remaining_fields()[0].ty, self.undecoded(), self.fuel())
                == Ok::<int, DecodeError>(k),
            0 <= k <= self.undecoded().len(),
        ensures
            field_ids(self.remaining_fields()).drop_first() == field_ids(
                self.remaining_fields().drop_first(),
            ),
            suffix_of(self.undecoded().skip(k), self.undecoded()),
            suffix_of(self.undecoded().skip(k), self.start()),
            match items_skip_len(
                self.registry(),
                field_ids(self.remaining_fields().drop_first()),
                self.undecoded().skip(k),
                self.fuel(),
            ) {
                Ok(l) => items_skip_len(
                    self.registry(),
                    self.all_ids(),
                    self.start(),
                    self.fuel(),
                ) == Ok::<int, DecodeError>(self.consumed() + k + l),
                Err(e) => items_skip_len(
                    self.registry(),
                    self.all_ids(),
                    self.start(),
                    self.fuel(),
                ) == Err::<int, DecodeError>(e),
            },
    {
        let ids = field_ids(self.remaining_fields());
        assert(ids.drop_first() =~= field_ids(self.remaining_fields().drop_first()));
        assert(ids[0] == self.remaining_fields()[0].ty);
        assert(suffix_of(self.undecoded().skip(k), self.undecoded())) by {
            assert(self.undecoded().skip(k) =~= self.undecoded().skip(
                self.undecoded().len() - self.undecoded().skip(k).len(),
            ));
        }
        lemma_suffix_trans(self.undecoded().skip(k), self.undecoded(), self.start());
    }

    /// The bytes representing this composite value and anything after it.
    pub fn bytes_from_start(&self) -> (r: &'scale [u8])
        ensures
            r@ == self.start(),
    {
        self.bytes
    }

    /// The bytes that have not yet been decoded in this composite value,
    /// and anything after it.
    pub fn bytes_from_undecoded(&self) -> (r: &'scale [u8])
        ensures
            r@ == self.undecoded(),
    {
        self.item_bytes
    }

    /// The number of un-decoded fields remaining.
    pub fn remaining(&self) -> (r: usize)
        ensures
            r == self.remaining_ids().len(),
    {
        self.fields.len()
    }

    /// Path to this type.
    pub fn path(&self) -> (r: &'info [String])
        ensures
            r@ == self.path_spec(),
    {
        self.path
    }

    /// The yet-to-be-decoded fields still present in this composite value.
    pub fn fields(&self) -> (r: &'info [Field])
        ensures
            r@ == self.remaining_fields(),
    {
        self.fields
    }

    /// Whether any of the remaining fields are unnamed.
    pub fn has_unnamed_fields(&self) -> (r: bool)
        ensures
            r == exists|i: int|
                0 <= i < self.remaining_fields().len() && self.remaining_fields()[i].name
                    is None,
    {
        let mut i: usize = 0;
        while i < self.fields.len()
            invariant
                i <= self.fields@.len(),
                forall|j: int| 0 <= j < i ==> self.fields@[j].name is Some,
            decreases self.fields@.len() - i,
        {
            let f = vstd::slice::slice_index_get(self.fields, i);
            if f.name.is_none() {
                return true;
            }
            i = i + 1;
        }
        false
    }

    /// Reinterprets the remaining fields as an unnamed tuple cursor over
    /// the same bytes, discarding name information.
    pub fn as_tuple(&self) -> (r: crate::tuple::Tuple<'scale, 'info>)
        requires
            self.wf(),
        ensures
            r.wf(),
            r.start() == self.undecoded(),
            r.undecoded() == self.undecoded(),
            r.remaining_fields() == self.remaining_fields(),
            r.all_ids() == self.remaining_ids(),
            r.registry() == self.registry(),
            r.fuel() == self.fuel(),
    {
        crate::tuple::Tuple::new(self.item_bytes, self.fields, self.types, self.depth)
    }

    /// The name of the next field to be decoded; `None` if the field has
    /// no name or no fields remain.
    pub fn peek_name(&self) -> (r: Option<&'info str>)
        ensures
            match r {
                Some(s) => self.remaining_fields().len() > 0 && (self.remaining_fields()[0].name
                    matches Some(n) && s@ == n@),
                None => self.remaining_fields().len() == 0 || self.remaining_fields()[0].name
                    is None,
            },
    {
        proof {
            assert(suffix_of(self.item_bytes@, self.item_bytes@)) by {
                assert(self.item_bytes@.skip(0) =~= self.item_bytes@);
            }
        }
        if self.fields.len() == 0 {
            return None;
        }
        let f = vstd::slice::slice_index_get(self.fields, 0);
        match &f.name {
            Some(n) => Some(n.as_str()),
            None => None,
        }
    }

    /// Decode the next field by handing it to a visitor. Returns `None`
    /// once no fields remain; a successful pull consumes exactly the
    /// bytes of that field's encoding. On an error the cursor is left as
    /// it was, so its end-of-shape bookkeeping stays exact.
    pub fn decode_item<V: Visitor>(&mut self, visitor: V) -> (r: Option<
        Result<V::Value, Error<V::Error>>,
    >)
        requires
            old(self).wf(),
        ensures
            Self::preserves(*old(self), *final(self)),
            match r {
                None => old(self).remaining_ids().len() == 0 && *final(self) == *old(self),
                Some(Ok(_)) => old(self).remaining_ids().len() > 0 && final(self).remaining_fields() == old(self).remaining_fields().drop_first() && skip_len(
                    old(self).registry(),
                    old(self).remaining_ids()[0],
                    old(self).undecoded(),
                    old(self).fuel(),
                ) == Ok::<int, DecodeError>(
                    old(self).undecoded().len() - final(self).undecoded().len(),
                ) && final(self).undecoded() == old(self).undecoded().skip(
                    old(self).undecoded().len() - final(self).undecoded().len(),
                ),
                Some(Err(_)) => old(self).remaining_ids().len() > 0 && *final(self) == *old(
                    self,
                ),
            },
            r matches Some(p) ==> crate::engine::pre_visitor_err(
                p,
                old(self).registry(),
                old(self).remaining_ids()[0],
                old(self).undecoded(),
                old(self).fuel(),
            ),
    {
        proof {
            assert(suffix_of(self.item_bytes@, self.item_bytes@)) by {
                assert(self.item_bytes@.skip(0) =~= self.item_bytes@);
            }
        }
        if self.fields.len() == 0 {
            return None;
        }
        let ty = self.fields[0].ty;
        match decode_with_visitor_depth(self.item_bytes, ty, self.types, visitor, self.depth) {
            Ok((v, rest)) => {
                proof {
                    let k = self.item_bytes@.len() - rest@.len();
                    assert(rest@ =~= self.undecoded().skip(k));
                    self.lemma_advance(k);
                }
                self.item_bytes = rest;
                self.fields = vstd::slice::slice_subrange(self.fields, 1, self.fields.len());
                Some(Ok(v))
            },
            Err(e) => Some(Err(e)),
        }
    }

    /// Decode the next field generically: skip over it with full
    /// validation, and hand back its name, raw bytes and type identifier
    /// instead of a visitor's output.
    pub fn next(&mut self) -> (r: Option<Result<CompositeField<'scale, 'info>, DecodeError>>)
        requires
            old(self).wf(),
        ensures
            Self::preserves(*old(self), *final(self)),
            match r {
                None => old(self).remaining_ids().len() == 0 && *final(self) == *old(self),
                Some(Ok(f)) => old(self).remaining_ids().len() > 0 && final(self).remaining_fields() == old(self).remaining_fields().drop_first() && skip_len(
                    old(self).registry(),
                    old(self).remaining_ids()[0],
                    old(self).undecoded(),
                    old(self).fuel(),
                ) == Ok::<int, DecodeError>(
                    old(self).undecoded().len() - final(self).undecoded().len(),
                ) && f.bytes_spec() == old(self).undecoded().take(
                    old(self).undecoded().len() - final(self).undecoded().len(),
                ) && f.ty_spec() == old(self).remaining_ids()[0] && f.registry()
                    == old(self).registry() && f.fuel() == old(self).fuel() && skip_len(
                    f.registry(),
                    f.ty_spec(),
                    f.bytes_spec(),
                    f.fuel(),
                ) == Ok::<int, DecodeError>(f.bytes_spec().len() as int) && (match old(
                    self,
                ).remaining_fields()[0].name {
                    Some(n) => f.name_spec() == Some(n@),
                    None => f.name_spec() is None,
                }),
                Some(Err(_)) => old(self).remaining_ids().len() > 0 && *final(self) == *old(
                    self,
                ),
            },
            (old(self).remaining_ids().len() > 0 && skip_len(
                old(self).registry(),
                old(self).remaining_ids()[0],
                old(self).undecoded(),
                old(self).fuel(),
            ) is Ok) ==> (r matches Some(Ok(_))),
            r matches Some(Err(e)) ==> skip_len(
                old(self).registry(),
                old(self).remaining_ids()[0],
                old(self).undecoded(),
                old(self).fuel(),
            ) == Err::<int, DecodeError>(e),
    {
        proof {
            assert(suffix_of(self.item_bytes@, self.item_bytes@)) by {
                assert(self.item_bytes@.skip(0) =~= self.item_bytes@);
            }
        }
        if self.fields.len() == 0 {
            return None;
        }
        let name = self.peek_name();
        let field = vstd::slice::slice_index_get(self.fields, 0);
        let k = match skip_value(self.types, field.ty, self.item_bytes, self.depth) {
            Ok(k) => k,
            Err(e) => {
                return Some(Err(e));
            },
        };
        proof {
            self.lemma_advance(k as int);
            crate::laws::lemma_skip_len_take(
                self.types@,
                field.ty,
                self.item_bytes@,
                self.depth as nat,
                k as int,
            );
            assert(self.item_bytes@.take(k as int) =~= self.item_bytes@.subrange(0, k as int));
        }
        let res_bytes = vstd::slice::slice_subrange(self.item_bytes, 0, k);
        self.item_bytes = vstd::slice::slice_subrange(self.item_bytes, k, self.item_bytes.len());
        self.fields = vstd::slice::slice_subrange(self.fields, 1, self.fields.len());
        Some(
            Ok(
                CompositeField {
                    name,
                    bytes: res_bytes,
                    ty: field.ty,
                    types: self.types,
                    depth: self.depth,
                },
            ),
        )
    }
}

/// A single decoded-over field of a composite value: its name, the exact
/// bytes of its encoding, and its type identifier, ready to be decoded
/// on demand.
pub struct CompositeField<'scale, 'info> {
    name: Option<&'info str>,
    bytes: &'scale [u8],
    ty: u32,
    types: &'info Registry,
    depth: u32,
}

impl<'scale, 'info> CompositeField<'scale, 'info> {
    /// The exact bytes of this field's encoding.
    pub closed spec fn bytes_spec(self) -> Seq<u8> {
        self.bytes@
    }

    /// The field's name, if any.
    pub closed spec fn name_spec(self) -> Option<Seq<char>> {
        match self.name {
            Some(s) => Some(s@),
            None => None,
        }
    }

    /// A field view with no name, as tuple items have.
    pub(crate) fn unnamed(
        bytes: &'scale [u8],
        ty: u32,
        types: &'info Registry,
        depth: u32,
    ) -> (r: CompositeField<'scale, 'info>)
        ensures
            r.bytes_spec() == bytes@,
            r.ty_spec() == ty,
            r.registry() == types@,
            r.fuel() == depth as nat,
            r.name_spec() is None,
    {
        CompositeField { name: None, bytes, ty, types, depth }
    }

    /// The field's type identifier.
    pub closed spec fn ty_spec(self) -> u32 {
        self.ty
    }

    /// The registry the field's type resolves in.
    pub closed spec fn registry(self) -> Seq<TypeInfo> {
        self.types@
    }

    /// The nesting budget the field is decoded under.
    pub closed spec fn fuel(self) -> nat {
        self.depth as nat
    }

    /// The field name, if the composite named its fields.
    pub fn name(&self) -> (r: Option<&'info str>)
        ensures
            match r {
                Some(s) => self.name_spec() == Some(s@),
                None => self.name_spec() is None,
            },
    {
        self.name
    }

    /// The bytes associated with this field.
    pub fn bytes(&self) -> (r: &'scale [u8])
        ensures
            r@ == self.bytes_spec(),
    {
        self.bytes
    }

    /// The type identifier associated with this field.
    pub fn type_id(&self) -> (r: u32)
        ensures
            r == self.ty_spec(),
    {
        self.ty
    }

    /// Decode this field's bytes by handing them to a visitor.
    pub fn decode_with_visitor<V: Visitor>(&self, visitor: V) -> (r: Result<
        V::Value,
        Error<V::Error>,
    >)
        ensures
            r is Ok ==> skip_len(self.registry(), self.ty_spec(), self.bytes_spec(), self.fuel())
                is Ok,
            crate::engine::pre_visitor_err(
                r,
                self.registry(),
                self.ty_spec(),
                self.bytes_spec(),
                self.fuel(),
            ),
    {
        match decode_with_visitor_depth(self.bytes, self.ty, self.types, visitor, self.depth) {
            Ok((v, _)) => Ok(v),
            Err(e) => Err(e),
        }
    }
}

} // verus!
