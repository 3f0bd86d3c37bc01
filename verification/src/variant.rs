//! The lazy cursor over a variant (tagged-union) value's fields, paired
//! with the name of the alternative its discriminant selected.

use vstd::prelude::*;

use crate::composite::Composite;
use crate::error::{DecodeError, Error};
use crate::registry::{Field, Registry, TypeInfo};
use crate::shape::items_skip_len;
use crate::visitor::Visitor;

verus! {

/// A variant value's decode state: the matched alternative's name and a
/// composite cursor over its fields (which begin after the discriminant
/// byte).
pub struct Variant<'scale, 'info> {
    name: &'info String,
    fields: Composite<'scale, 'info>,
}

impl<'scale, 'info> Variant<'scale, 'info> {
    /// The matched alternative's name.
    pub closed spec fn name_spec(self) -> Seq<char> {
        self.name@
    }

    /// The field cursor's state.
    pub closed spec fn fields_cursor(self) -> Composite<'scale, 'info> {
        self.fields
    }

    /// The cursor's bookkeeping invariant: that of its field cursor.
    pub open spec fn wf(self) -> bool {
        self.fields_cursor().wf()
    }

    /// What every pull through this cursor preserves.
    pub open spec fn preserves(pre: Self, post: Self) -> bool {
        &&& Composite::preserves(pre.fields_cursor(), post.fields_cursor())
        &&& post.name_spec() == pre.name_spec()
    }

    /// A cursor over the fields of the alternative named `name`, whose
    /// encodings start at the front of `bytes`.
    pub fn new(
        name: &'info String,
        bytes: &'scale [u8],
        path: &'info [String],
        fields: &'info [Field],
        types: &'info Registry,
        depth: u32,
    ) -> (r: Variant<'scale, 'info>)
        ensures
            r.wf(),
            r.name_spec() == name@,
            r.fields_cursor().start() == bytes@,
            r.fields_cursor().undecoded() == bytes@,
            r.fields_cursor().remaining_fields() == fields@,
            r.fields_cursor().all_ids() == crate::registry::field_ids(fields@),
            r.fields_cursor().registry() == types@,
            r.fields_cursor().fuel() == depth as nat,
    {
        Variant { name, fields: Composite::new(bytes, path, fields, types, depth) }
    }

    /// The matched alternative's name.
    pub fn name(&self) -> (r: &'info str)
        ensures
            r@ == self.name_spec(),
    {
        self.name.as_str()
    }

    /// The number of un-decoded fields remaining.
    pub fn remaining(&self) -> (r: usize)
        ensures
            r == self.fields_cursor().remaining_ids().len(),
    {
        self.fields.remaining()
    }

    /// The bytes representing this variant's fields and anything after
    /// them.
    pub fn bytes_from_start(&self) -> (r: &'scale [u8])
        ensures
            r@ == self.fields_cursor().start(),
    {
        self.fields.bytes_from_start()
    }

    /// The bytes that have not yet been decoded, and anything after the
    /// variant value.
    pub fn bytes_from_undecoded(&self) -> (r: &'scale [u8])
        ensures
            r@ == self.fields_cursor().undecoded(),
    {
        self.fields.bytes_from_undecoded()
    }

    /// The name of the next field to be decoded, as
    /// [`Composite::peek_name`].
    pub fn peek_name(&self) -> (r: Option<&'info str>) {
        self.fields.peek_name()
    }

    /// Skip over all bytes associated with this variant's remaining
    /// fields.
    pub fn skip_decoding(&mut self) -> (r: Result<(), DecodeError>)
        requires
            old(self).wf(),
        ensures
            Self::preserves(*old(self), *final(self)),
            match r {
                Ok(()) => final(self).fields_cursor().remaining_ids().len() == 0
                    && items_skip_len(
                    old(self).fields_cursor().registry(),
                    old(self).fields_cursor().remaining_ids(),
                    old(self).fields_cursor().undecoded(),
                    old(self).fields_cursor().fuel(),
                ) == Ok::<int, DecodeError>(
                    old(self).fields_cursor().undecoded().len() - final(self).fields_cursor().undecoded().len(),
                ) && items_skip_len(
                    old(self).fields_cursor().registry(),
                    old(self).fields_cursor().all_ids(),
                    old(self).fields_cursor().start(),
                    old(self).fields_cursor().fuel(),
                ) == Ok::<int, DecodeError>(
                    old(self).fields_cursor().start().len() - final(self).fields_cursor().undecoded().len(),
                ),
                Err(e) => items_skip_len(
                    old(self).fields_cursor().registry(),
                    old(self).fields_cursor().remaining_ids(),
                    old(self).fields_cursor().undecoded(),
                    old(self).fields_cursor().fuel(),
                ) == Err::<int, DecodeError>(e),
            },
    {
        self.fields.skip_decoding()
    }

    /// Decode the next field by handing it to a visitor, as
    /// [`Composite::decode_item`].
    pub fn decode_item<V: Visitor>(&mut self, visitor: V) -> (r: Option<
        Result<V::Value, Error<V::Error>>,
    >)
        requires
            old(self).wf(),
        ensures
            Self::preserves(*old(self), *final(self)),
            match r {
                None => old(self).fields_cursor().remaining_ids().len() == 0 && *final(self)
                    == *old(self),
                Some(Ok(_)) => old(self).fields_cursor().remaining_ids().len() > 0 && final(self).fields_cursor().remaining_fields() == old(self).fields_cursor().remaining_fields().drop_first() && crate::shape::skip_len(
                    old(self).fields_cursor().registry(),
                    old(self).fields_cursor().remaining_ids()[0],
                    old(self).fields_cursor().undecoded(),
                    old(self).fields_cursor().fuel(),
                ) == Ok::<int, DecodeError>(
                    old(self).fields_cursor().undecoded().len() - final(self).fields_cursor().undecoded().len(),
                ) && final(self).fields_cursor().undecoded() == old(self).fields_cursor().undecoded().skip(
                    old(self).fields_cursor().undecoded().len() - final(self).fields_cursor().undecoded().len(),
                ),
                Some(Err(_)) => old(self).fields_cursor().remaining_ids().len() > 0 && *final(self) == *old(self),
            },
            r matches Some(p) ==> crate::engine::pre_visitor_err(
                p,
                old(self).fields_cursor().registry(),
                old(self).fields_cursor().remaining_ids()[0],
                old(self).fields_cursor().undecoded(),
                old(self).fields_cursor().fuel(),
            ),
    {
        let r = self.fields.decode_item(visitor);
        r
    }
}

} // verus!
