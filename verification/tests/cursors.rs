use scale_decode::array::Array;
use scale_decode::bits::BitSequence;
use scale_decode::composite::Composite;
use scale_decode::sequence::Sequence;
use scale_decode::str_cursor::Str;
use scale_decode::tuple::Tuple;
use scale_decode::variant::Variant;
use scale_decode::{
    decode_with_visitor, DecodeError, Error, Field, IgnoreVisitor, Primitive, Registry, TypeDef,
    TypeInfo, Visitor,
};

fn reg_of(defs: Vec<TypeDef>) -> Registry {
    let mut r = Registry::new();
    for d in defs {
        r.push_type(TypeInfo { path: Vec::new(), def: d });
    }
    r
}

fn forward(e: Error<DecodeError>) -> Error<String> {
    match e {
        Error::Decode(d) => Error::Decode(d),
        Error::Visitor(d) => Error::Visitor(format!("{:?}", d)),
    }
}

/// Walks a composite one item at a time and reports the byte-consumption
/// bookkeeping observed along the way.
struct BookkeepingVisitor;

#[derive(Debug, PartialEq)]
struct Trace {
    per_item: Vec<usize>,
    total: usize,
    remaining_before_each: Vec<usize>,
}

impl Visitor for BookkeepingVisitor {
    type Value = Trace;
    type Error = String;

    fn visit_bool(self, _: bool) -> Result<Trace, Error<String>> {
        Err(Error::Visitor("not a composite".to_string()))
    }
    fn visit_char(self, _: char) -> Result<Trace, Error<String>> {
        Err(Error::Visitor("not a composite".to_string()))
    }
    fn visit_u8(self, _: u8) -> Result<Trace, Error<String>> {
        Err(Error::Visitor("not a composite".to_string()))
    }
    fn visit_u16(self, _: u16) -> Result<Trace, Error<String>> {
        Err(Error::Visitor("not a composite".to_string()))
    }
    fn visit_u32(self, _: u32) -> Result<Trace, Error<String>> {
        Err(Error::Visitor("not a composite".to_string()))
    }
    fn visit_u64(self, _: u64) -> Result<Trace, Error<String>> {
        Err(Error::Visitor("not a composite".to_string()))
    }
    fn visit_u128(self, _: u128) -> Result<Trace, Error<String>> {
        Err(Error::Visitor("not a composite".to_string()))
    }
    fn visit_u256(self, _: &[u8]) -> Result<Trace, Error<String>> {
        Err(Error::Visitor("not a composite".to_string()))
    }
    fn visit_i8(self, _: i8) -> Result<Trace, Error<String>> {
        Err(Error::Visitor("not a composite".to_string()))
    }
    fn visit_i16(self, _: i16) -> Result<Trace, Error<String>> {
        Err(Error::Visitor("not a composite".to_string()))
    }
    fn visit_i32(self, _: i32) -> Result<Trace, Error<String>> {
        Err(Error::Visitor("not a composite".to_string()))
    }
    fn visit_i64(self, _: i64) -> Result<Trace, Error<String>> {
        Err(Error::Visitor("not a composite".to_string()))
    }
    fn visit_i128(self, _: i128) -> Result<Trace, Error<String>> {
        Err(Error::Visitor("not a composite".to_string()))
    }
    fn visit_i256(self, _: &[u8]) -> Result<Trace, Error<String>> {
        Err(Error::Visitor("not a composite".to_string()))
    }
    fn visit_compact_u8(self, _: u8) -> Result<Trace, Error<String>> {
        Err(Error::Visitor("not a composite".to_string()))
    }
    fn visit_compact_u16(self, _: u16) -> Result<Trace, Error<String>> {
        Err(Error::Visitor("not a composite".to_string()))
    }
    fn visit_compact_u32(self, _: u32) -> Result<Trace, Error<String>> {
        Err(Error::Visitor("not a composite".to_string()))
    }
    fn visit_compact_u64(self, _: u64) -> Result<Trace, Error<String>> {
        Err(Error::Visitor("not a composite".to_string()))
    }
    fn visit_compact_u128(self, _: u128) -> Result<Trace, Error<String>> {
        Err(Error::Visitor("not a composite".to_string()))
    }
    fn visit_str(self, _: &mut Str<'_>) -> Result<Trace, Error<String>> {
        Err(Error::Visitor("not a composite".to_string()))
    }
    fn visit_bitsequence(self, _: &mut BitSequence<'_>) -> Result<Trace, Error<String>> {
        Err(Error::Visitor("not a composite".to_string()))
    }
    fn visit_tuple(self, _: &mut Tuple<'_, '_>) -> Result<Trace, Error<String>> {
        Err(Error::Visitor("not a composite".to_string()))
    }
    fn visit_sequence(self, _: &mut Sequence<'_, '_>) -> Result<Trace, Error<String>> {
        Err(Error::Visitor("not a composite".to_string()))
    }
    fn visit_array(self, _: &mut Array<'_, '_>) -> Result<Trace, Error<String>> {
        Err(Error::Visitor("not a composite".to_string()))
    }
    fn visit_variant(self, _: &mut Variant<'_, '_>) -> Result<Trace, Error<String>> {
        Err(Error::Visitor("not a composite".to_string()))
    }

    fn visit_composite(self, value: &mut Composite<'_, '_>) -> Result<Trace, Error<String>> {
        let start = value.bytes_from_start().len();
        let mut per_item = Vec::new();
        let mut remaining_before_each = Vec::new();
        loop {
            remaining_before_each.push(value.remaining());
            let before = value.bytes_from_undecoded().len();
            match value.decode_item(IgnoreVisitor) {
                None => {
                    remaining_before_each.pop();
                    break;
                }
                Some(Ok(())) => per_item.push(before - value.bytes_from_undecoded().len()),
                Some(Err(e)) => return Err(forward(e)),
            }
        }
        assert_eq!(value.remaining(), 0);
        let total = start - value.bytes_from_undecoded().len();
        Ok(Trace { per_item, total, remaining_before_each })
    }
}

#[test]
fn consumption_sums_across_items() {
    let reg = reg_of(vec![
        TypeDef::Primitive(Primitive::U8),
        TypeDef::Primitive(Primitive::U32),
        TypeDef::Primitive(Primitive::Str),
        TypeDef::Composite(vec![
            Field { name: None, ty: 0 },
            Field { name: None, ty: 1 },
            Field { name: None, ty: 2 },
        ]),
    ]);
    let mut bytes = vec![1u8, 2, 3, 4, 5];
    bytes.extend_from_slice(&[4 << 2]); // "word" length prefix
    bytes.extend_from_slice(b"word");
    bytes.push(0xEE); // past the composite

    let mut data: &[u8] = &bytes;
    let trace = decode_with_visitor(&mut data, 3, &reg, BookkeepingVisitor).unwrap();
    assert_eq!(trace.per_item, vec![1, 4, 5]);
    assert_eq!(trace.total, 1 + 4 + 5);
    assert_eq!(trace.remaining_before_each, vec![3, 2, 1]);
    assert_eq!(data, &[0xEE]);
}

/// Uses the generic field-view iteration instead of per-field visitors.
struct FieldViewVisitor;

impl Visitor for FieldViewVisitor {
    type Value = Vec<(Option<String>, Vec<u8>, u32)>;
    type Error = String;

    fn visit_bool(self, _: bool) -> Result<Self::Value, Error<String>> {
        Err(Error::Visitor("not a composite".to_string()))
    }
    fn visit_char(self, _: char) -> Result<Self::Value, Error<String>> {
        Err(Error::Visitor("not a composite".to_string()))
    }
    fn visit_u8(self, _: u8) -> Result<Self::Value, Error<String>> {
        Err(Error::Visitor("not a composite".to_string()))
    }
    fn visit_u16(self, _: u16) -> Result<Self::Value, Error<String>> {
        Err(Error::Visitor("not a composite".to_string()))
    }
    fn visit_u32(self, _: u32) -> Result<Self::Value, Error<String>> {
        Err(Error::Visitor("not a composite".to_string()))
    }
    fn visit_u64(self, _: u64) -> Result<Self::Value, Error<String>> {
        Err(Error::Visitor("not a composite".to_string()))
    }
    fn visit_u128(self, _: u128) -> Result<Self::Value, Error<String>> {
        Err(Error::Visitor("not a composite".to_string()))
    }
    fn visit_u256(self, _: &[u8]) -> Result<Self::Value, Error<String>> {
        Err(Error::Visitor("not a composite".to_string()))
    }
    fn visit_i8(self, _: i8) -> Result<Self::Value, Error<String>> {
        Err(Error::Visitor("not a composite".to_string()))
    }
    fn visit_i16(self, _: i16) -> Result<Self::Value, Error<String>> {
        Err(Error::Visitor("not a composite".to_string()))
    }
    fn visit_i32(self, _: i32) -> Result<Self::Value, Error<String>> {
        Err(Error::Visitor("not a composite".to_string()))
    }
    fn visit_i64(self, _: i64) -> Result<Self::Value, Error<String>> {
        Err(Error::Visitor("not a composite".to_string()))
    }
    fn visit_i128(self, _: i128) -> Result<Self::Value, Error<String>> {
        Err(Error::Visitor("not a composite".to_string()))
    }
    fn visit_i256(self, _: &[u8]) -> Result<Self::Value, Error<String>> {
        Err(Error::Visitor("not a composite".to_string()))
    }
    fn visit_compact_u8(self, _: u8) -> Result<Self::Value, Error<String>> {
        Err(Error::Visitor("not a composite".to_string()))
    }
    fn visit_compact_u16(self, _: u16) -> Result<Self::Value, Error<String>> {
        Err(Error::Visitor("not a composite".to_string()))
    }
    fn visit_compact_u32(self, _: u32) -> Result<Self::Value, Error<String>> {
        Err(Error::Visitor("not a composite".to_string()))
    }
    fn visit_compact_u64(self, _: u64) -> Result<Self::Value, Error<String>> {
        Err(Error::Visitor("not a composite".to_string()))
    }
    fn visit_compact_u128(self, _: u128) -> Result<Self::Value, Error<String>> {
        Err(Error::Visitor("not a composite".to_string()))
    }
    fn visit_str(self, _: &mut Str<'_>) -> Result<Self::Value, Error<String>> {
        Err(Error::Visitor("not a composite".to_string()))
    }
    fn visit_bitsequence(self, _: &mut BitSequence<'_>) -> Result<Self::Value, Error<String>> {
        Err(Error::Visitor("not a composite".to_string()))
    }
    fn visit_tuple(self, _: &mut Tuple<'_, '_>) -> Result<Self::Value, Error<String>> {
        Err(Error::Visitor("not a composite".to_string()))
    }
    fn visit_sequence(self, _: &mut Sequence<'_, '_>) -> Result<Self::Value, Error<String>> {
        Err(Error::Visitor("not a composite".to_string()))
    }
    fn visit_array(self, _: &mut Array<'_, '_>) -> Result<Self::Value, Error<String>> {
        Err(Error::Visitor("not a composite".to_string()))
    }
    fn visit_variant(self, _: &mut Variant<'_, '_>) -> Result<Self::Value, Error<String>> {
        Err(Error::Visitor("not a composite".to_string()))
    }

    fn visit_composite(self, value: &mut Composite<'_, '_>) -> Result<Self::Value, Error<String>> {
        assert!(value.has_unnamed_fields());
        assert_eq!(value.peek_name(), Some("first"));
        assert_eq!(value.fields().len(), value.remaining());
        let mut out = Vec::new();
        loop {
            match value.next() {
                None => break,
                Some(Ok(field)) => {
                    // The view's bytes are a whole encoding of their own:
                    // decoding them consumes them entirely.
                    assert!(field.decode_with_visitor(IgnoreVisitor).is_ok());
                    out.push((
                        field.name().map(|s| s.to_string()),
                        field.bytes().to_vec(),
                        field.type_id(),
                    ));
                }
                Some(Err(e)) => return Err(Error::Decode(e)),
            }
        }
        Ok(out)
    }
}

#[test]
fn generic_field_views_carry_bytes_and_ids() {
    let reg = reg_of(vec![
        TypeDef::Primitive(Primitive::U16),
        TypeDef::Primitive(Primitive::U8),
        TypeDef::Composite(vec![
            Field { name: Some("first".to_string()), ty: 0 },
            Field { name: None, ty: 1 },
        ]),
    ]);
    let bytes = [0x34u8, 0x12, 0x09];
    let mut data: &[u8] = &bytes;
    let views = decode_with_visitor(&mut data, 2, &reg, FieldViewVisitor).unwrap();
    assert_eq!(
        views,
        vec![
            (Some("first".to_string()), vec![0x34, 0x12], 0),
            (None, vec![0x09], 1),
        ]
    );
    assert_eq!(data.len(), 0);
}

/// Reinterprets a composite's remaining fields as a tuple cursor.
struct AsTupleVisitor;

impl Visitor for AsTupleVisitor {
    type Value = usize;
    type Error = String;

    fn visit_bool(self, _: bool) -> Result<usize, Error<String>> {
        Err(Error::Visitor("not a composite".to_string()))
    }
    fn visit_char(self, _: char) -> Result<usize, Error<String>> {
        Err(Error::Visitor("not a composite".to_string()))
    }
    fn visit_u8(self, _: u8) -> Result<usize, Error<String>> {
        Err(Error::Visitor("not a composite".to_string()))
    }
    fn visit_u16(self, _: u16) -> Result<usize, Error<String>> {
        Err(Error::Visitor("not a composite".to_string()))
    }
    fn visit_u32(self, _: u32) -> Result<usize, Error<String>> {
        Err(Error::Visitor("not a composite".to_string()))
    }
    fn visit_u64(self, _: u64) -> Result<usize, Error<String>> {
        Err(Error::Visitor("not a composite".to_string()))
    }
    fn visit_u128(self, _: u128) -> Result<usize, Error<String>> {
        Err(Error::Visitor("not a composite".to_string()))
    }
    fn visit_u256(self, _: &[u8]) -> Result<usize, Error<String>> {
        Err(Error::Visitor("not a composite".to_string()))
    }
    fn visit_i8(self, _: i8) -> Result<usize, Error<String>> {
        Err(Error::Visitor("not a composite".to_string()))
    }
    fn visit_i16(self, _: i16) -> Result<usize, Error<String>> {
        Err(Error::Visitor("not a composite".to_string()))
    }
    fn visit_i32(self, _: i32) -> Result<usize, Error<String>> {
        Err(Error::Visitor("not a composite".to_string()))
    }
    fn visit_i64(self, _: i64) -> Result<usize, Error<String>> {
        Err(Error::Visitor("not a composite".to_string()))
    }
    fn visit_i128(self, _: i128) -> Result<usize, Error<String>> {
        Err(Error::Visitor("not a composite".to_string()))
    }
    fn visit_i256(self, _: &[u8]) -> Result<usize, Error<String>> {
        Err(Error::Visitor("not a composite".to_string()))
    }
    fn visit_compact_u8(self, _: u8) -> Result<usize, Error<String>> {
        Err(Error::Visitor("not a composite".to_string()))
    }
    fn visit_compact_u16(self, _: u16) -> Result<usize, Error<String>> {
        Err(Error::Visitor("not a composite".to_string()))
    }
    fn visit_compact_u32(self, _: u32) -> Result<usize, Error<String>> {
        Err(Error::Visitor("not a composite".to_string()))
    }
    fn visit_compact_u64(self, _: u64) -> Result<usize, Error<String>> {
        Err(Error::Visitor("not a composite".to_string()))
    }
    fn visit_compact_u128(self, _: u128) -> Result<usize, Error<String>> {
        Err(Error::Visitor("not a composite".to_string()))
    }
    fn visit_str(self, _: &mut Str<'_>) -> Result<usize, Error<String>> {
        Err(Error::Visitor("not a composite".to_string()))
    }
    fn visit_bitsequence(self, _: &mut BitSequence<'_>) -> Result<usize, Error<String>> {
        Err(Error::Visitor("not a composite".to_string()))
    }
    fn visit_tuple(self, _: &mut Tuple<'_, '_>) -> Result<usize, Error<String>> {
        Err(Error::Visitor("not a composite".to_string()))
    }
    fn visit_sequence(self, _: &mut Sequence<'_, '_>) -> Result<usize, Error<String>> {
        Err(Error::Visitor("not a composite".to_string()))
    }
    fn visit_array(self, _: &mut Array<'_, '_>) -> Result<usize, Error<String>> {
        Err(Error::Visitor("not a composite".to_string()))
    }
    fn visit_variant(self, _: &mut Variant<'_, '_>) -> Result<usize, Error<String>> {
        Err(Error::Visitor("not a composite".to_string()))
    }

    fn visit_composite(self, value: &mut Composite<'_, '_>) -> Result<usize, Error<String>> {
        let mut tuple = value.as_tuple();
        let mut items: usize = 0;
        loop {
            match tuple.decode_item(IgnoreVisitor) {
                None => break,
                Some(Ok(())) => items += 1,
                Some(Err(e)) => return Err(forward(e)),
            }
        }
        assert_eq!(tuple.remaining(), 0);
        Ok(items)
    }
}

#[test]
fn composite_reinterpreted_as_tuple() {
    let reg = reg_of(vec![
        TypeDef::Primitive(Primitive::U8),
        TypeDef::Primitive(Primitive::U16),
        TypeDef::Composite(vec![
            Field { name: Some("a".to_string()), ty: 0 },
            Field { name: Some("b".to_string()), ty: 1 },
        ]),
    ]);
    let bytes = [1u8, 2, 3];
    let mut data: &[u8] = &bytes;
    let items = decode_with_visitor(&mut data, 2, &reg, AsTupleVisitor).unwrap();
    assert_eq!(items, 2);
    assert_eq!(data.len(), 0);
}
