//! The decoder's view of a type registry: a table of shape descriptions
//! indexed by numeric type identifiers.
//!
//! The registry is an external collaborator; the decoder only follows the
//! identifiers it is given. A dangling identifier surfaces as
//! [`crate::error::DecodeError::TypeIdNotFound`], never as a panic.

use vstd::prelude::*;

verus! {

/// A primitive shape: decoded directly from a fixed number of bytes
/// (except strings, which carry a compact length prefix).
#[derive(Debug, Clone, Copy, PartialEq, Eq)]
pub enum Primitive {
    Bool,
    Char,
    Str,
    U8,
    U16,
    U32,
    U64,
    U128,
    U256,
    I8,
    I16,
    I32,
    I64,
    I128,
    I256,
}

/// The integer width a compact-encoded value must fit in.
#[derive(Debug, Clone, Copy, PartialEq, Eq)]
pub enum CompactKind {
    U8,
    U16,
    U32,
    U64,
    U128,
}

/// One field of a composite or variant shape: an optional name and the
/// type identifier of the field's own shape.
#[derive(Debug, Clone, PartialEq, Eq)]
pub struct Field {
    pub name: Option<String>,
    pub ty: u32,
}

/// One alternative of a variant shape: its name, the discriminant byte
/// that selects it on the wire, and its fields.
#[derive(Debug, Clone, PartialEq, Eq)]
pub struct VariantDef {
    pub name: String,
    pub index: u8,
    pub fields: Vec<Field>,
}

/// The structural kind of a type, as the registry describes it.
#[derive(Debug, Clone, PartialEq, Eq)]
pub enum TypeDef {
    /// A primitive value.
    Primitive(Primitive),
    /// A struct-like shape: an ordered list of (optionally named) fields.
    Composite(Vec<Field>),
    /// A tagged union: a discriminant byte selects one alternative.
    Variant(Vec<VariantDef>),
    /// A runtime-length list of one element type, length-prefixed.
    Sequence(u32),
    /// A fixed-length list: the length, then the element type identifier.
    Array(u32, u32),
    /// An ordered list of unnamed items; field names are ignored.
    Tuple(Vec<Field>),
    /// A compact-encoded integer of the given width.
    Compact(CompactKind),
    /// A compact-length-prefixed packed run of booleans.
    BitSequence,
}

/// A registry entry: a human-readable path and the shape itself.
#[derive(Debug, Clone, PartialEq, Eq)]
pub struct TypeInfo {
    pub path: Vec<String>,
    pub def: TypeDef,
}

/// A table of type descriptions; a type identifier is an index into it.
#[derive(Debug, Clone, PartialEq, Eq)]
pub struct Registry {
    types: Vec<TypeInfo>,
}

impl View for Registry {
    type V = Seq<TypeInfo>;

    closed spec fn view(&self) -> Seq<TypeInfo> {
        self.types@
    }
}

impl Registry {
    /// An empty registry, in which every identifier is dangling.
    pub fn new() -> (r: Registry)
        ensures
            r@ == Seq::<TypeInfo>::empty(),
    {
        Registry { types: Vec::new() }
    }

    /// Adds a type description and returns the identifier that now
    /// resolves to it.
    pub fn push_type(&mut self, info: TypeInfo) -> (id: u32)
        requires
            old(self)@.len() < u32::MAX,
        ensures
            final(self)@ == old(self)@.push(info),
            id as int == old(self)@.len(),
    {
        let id = self.types.len() as u32;
        self.types.push(info);
        id
    }

    /// The number of registered types.
    pub fn len(&self) -> (n: usize)
        ensures
            n == self@.len(),
    {
        self.types.len()
    }

    /// Looks a type identifier up; `None` when it is dangling.
    pub fn resolve(&self, id: u32) -> (r: Option<&TypeInfo>)
        ensures
            (id as int) < self@.len() ==> r == Some(&self@[id as int]),
            (id as int) >= self@.len() ==> r is None,
    {
        if (id as usize) < self.types.len() {
            Some(&self.types[id as usize])
        } else {
            None
        }
    }
}

/// The type identifiers of a field list, in order.
pub open spec fn field_ids(fields: Seq<Field>) -> Seq<u32> {
    fields.map_values(|f: Field| f.ty)
}

/// The first alternative in `alts` whose discriminant is `d`.
pub open spec fn find_variant(alts: Seq<VariantDef>, d: u8) -> Option<VariantDef>
    decreases alts.len(),
{
    if alts.len() == 0 {
        None
    } else if alts[0].index == d {
        Some(alts[0])
    } else {
        find_variant(alts.drop_first(), d)
    }
}

} // verus!
