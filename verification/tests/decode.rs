use scale_decode::array::Array;
use scale_decode::bits::BitSequence;
use scale_decode::composite::Composite;
use scale_decode::sequence::Sequence;
use scale_decode::str_cursor::Str;
use scale_decode::tuple::Tuple;
use scale_decode::variant::Variant;
use scale_decode::{
    decode_with_visitor, skip, CompactKind, DecodeError, Error, Field, Primitive, Registry,
    TypeDef, TypeInfo, Visitor,
};

#[derive(Debug, PartialEq, Clone)]
enum Value {
    Bool(bool),
    Char(char),
    U8(u8),
    U16(u16),
    U32(u32),
    U64(u64),
    U128(u128),
    U256(Vec<u8>),
    I8(i8),
    I16(i16),
    I32(i32),
    I64(i64),
    I128(i128),
    I256(Vec<u8>),
    CompactU8(u8),
    CompactU16(u16),
    CompactU32(u32),
    CompactU64(u64),
    CompactU128(u128),
    Str(String),
    Composite(Vec<(Option<String>, Value)>),
    Tuple(Vec<Value>),
    Sequence(Vec<Value>),
    Array(Vec<Value>),
    Variant(String, Vec<(Option<String>, Value)>),
    Bits(Vec<bool>),
}

struct ValueVisitor;

impl Visitor for ValueVisitor {
    type Value = Value;
    type Error = String;

    fn visit_bool(self, value: bool) -> Result<Value, Error<String>> {
        Ok(Value::Bool(value))
    }
    fn visit_char(self, value: char) -> Result<Value, Error<String>> {
        Ok(Value::Char(value))
    }
    fn visit_u8(self, value: u8) -> Result<Value, Error<String>> {
        Ok(Value::U8(value))
    }
    fn visit_u16(self, value: u16) -> Result<Value, Error<String>> {
        Ok(Value::U16(value))
    }
    fn visit_u32(self, value: u32) -> Result<Value, Error<String>> {
        Ok(Value::U32(value))
    }
    fn visit_u64(self, value: u64) -> Result<Value, Error<String>> {
        Ok(Value::U64(value))
    }
    fn visit_u128(self, value: u128) -> Result<Value, Error<String>> {
        Ok(Value::U128(value))
    }
    fn visit_u256(self, value: &[u8]) -> Result<Value, Error<String>> {
        Ok(Value::U256(value.to_vec()))
    }
    fn visit_i8(self, value: i8) -> Result<Value, Error<String>> {
        Ok(Value::I8(value))
    }
    fn visit_i16(self, value: i16) -> Result<Value, Error<String>> {
        Ok(Value::I16(value))
    }
    fn visit_i32(self, value: i32) -> Result<Value, Error<String>> {
        Ok(Value::I32(value))
    }
    fn visit_i64(self, value: i64) -> Result<Value, Error<String>> {
        Ok(Value::I64(value))
    }
    fn visit_i128(self, value: i128) -> Result<Value, Error<String>> {
        Ok(Value::I128(value))
    }
    fn visit_i256(self, value: &[u8]) -> Result<Value, Error<String>> {
        Ok(Value::I256(value.to_vec()))
    }
    fn visit_compact_u8(self, value: u8) -> Result<Value, Error<String>> {
        Ok(Value::CompactU8(value))
    }
    fn visit_compact_u16(self, value: u16) -> Result<Value, Error<String>> {
        Ok(Value::CompactU16(value))
    }
    fn visit_compact_u32(self, value: u32) -> Result<Value, Error<String>> {
        Ok(Value::CompactU32(value))
    }
    fn visit_compact_u64(self, value: u64) -> Result<Value, Error<String>> {
        Ok(Value::CompactU64(value))
    }
    fn visit_compact_u128(self, value: u128) -> Result<Value, Error<String>> {
        Ok(Value::CompactU128(value))
    }
    fn visit_str(self, value: &mut Str<'_>) -> Result<Value, Error<String>> {
        match value.as_str() {
            Ok(s) => Ok(Value::Str(s.to_string())),
            Err(e) => Err(Error::Decode(e)),
        }
    }
    fn visit_bitsequence(self, value: &mut BitSequence<'_>) -> Result<Value, Error<String>> {
        Ok(Value::Bits(value.to_bools()))
    }
    fn visit_composite(self, value: &mut Composite<'_, '_>) -> Result<Value, Error<String>> {
        let mut fields = Vec::new();
        loop {
            let name = value.peek_name().map(|s| s.to_string());
            match value.decode_item(ValueVisitor) {
                None => break,
                Some(Ok(v)) => fields.push((name, v)),
                Some(Err(e)) => return Err(e),
            }
        }
        Ok(Value::Composite(fields))
    }
    fn visit_tuple(self, value: &mut Tuple<'_, '_>) -> Result<Value, Error<String>> {
        let mut items = Vec::new();
        loop {
            match value.decode_item(ValueVisitor) {
                None => break,
                Some(Ok(v)) => items.push(v),
                Some(Err(e)) => return Err(e),
            }
        }
        Ok(Value::Tuple(items))
    }
    fn visit_sequence(self, value: &mut Sequence<'_, '_>) -> Result<Value, Error<String>> {
        let mut items = Vec::new();
        loop {
            match value.decode_item(ValueVisitor) {
                None => break,
                Some(Ok(v)) => items.push(v),
                Some(Err(e)) => return Err(e),
            }
        }
        Ok(Value::Sequence(items))
    }
    fn visit_array(self, value: &mut Array<'_, '_>) -> Result<Value, Error<String>> {
        let mut items = Vec::new();
        loop {
            match value.decode_item(ValueVisitor) {
                None => break,
                Some(Ok(v)) => items.push(v),
                Some(Err(e)) => return Err(e),
            }
        }
        Ok(Value::Array(items))
    }
    fn visit_variant(self, value: &mut Variant<'_, '_>) -> Result<Value, Error<String>> {
        let name = value.name().to_string();
        let mut fields = Vec::new();
        loop {
            let field_name = value.peek_name().map(|s| s.to_string());
            match value.decode_item(ValueVisitor) {
                None => break,
                Some(Ok(v)) => fields.push((field_name, v)),
                Some(Err(e)) => return Err(e),
            }
        }
        Ok(Value::Variant(name, fields))
    }
}

fn reg_of(defs: Vec<TypeDef>) -> Registry {
    let mut r = Registry::new();
    for d in defs {
        r.push_type(TypeInfo { path: Vec::new(), def: d });
    }
    r
}

fn named(name: &str, ty: u32) -> Field {
    Field { name: Some(name.to_string()), ty }
}

fn unnamed(ty: u32) -> Field {
    Field { name: None, ty }
}

fn compact_enc(n: u128) -> Vec<u8> {
    if n < 64 {
        vec![(n as u8) << 2]
    } else if n < (1 << 14) {
        (((n as u16) << 2) | 0b01).to_le_bytes().to_vec()
    } else if n < (1 << 30) {
        (((n as u32) << 2) | 0b10).to_le_bytes().to_vec()
    } else {
        let le = n.to_le_bytes();
        let mut m = 16;
        while m > 4 && le[m - 1] == 0 {
            m -= 1;
        }
        let mut out = vec![(((m - 4) as u8) << 2) | 0b11];
        out.extend_from_slice(&le[..m]);
        out
    }
}

fn str_enc(s: &str) -> Vec<u8> {
    let mut out = compact_enc(s.len() as u128);
    out.extend_from_slice(s.as_bytes());
    out
}

fn decode_value(bytes: &[u8], ty: u32, reg: &Registry) -> Result<(Value, usize), Error<String>> {
    let mut data: &[u8] = bytes;
    let v = decode_with_visitor(&mut data, ty, reg, ValueVisitor)?;
    Ok((v, bytes.len() - data.len()))
}

#[test]
fn primitives_decode_exact_widths() {
    let cases: Vec<(Primitive, Vec<u8>, Value)> = vec![
        (Primitive::Bool, vec![1], Value::Bool(true)),
        (Primitive::Bool, vec![0], Value::Bool(false)),
        (Primitive::U8, vec![0xAB], Value::U8(0xAB)),
        (Primitive::U16, vec![0x01, 0x02], Value::U16(0x0201)),
        (Primitive::U32, vec![1, 2, 3, 4], Value::U32(0x04030201)),
        (
            Primitive::U64,
            vec![1, 2, 3, 4, 5, 6, 7, 8],
            Value::U64(0x0807060504030201),
        ),
        (Primitive::U128, 123u128.to_le_bytes().to_vec(), Value::U128(123)),
        (Primitive::I8, vec![0xFF], Value::I8(-1)),
        (Primitive::I16, (-2i16).to_le_bytes().to_vec(), Value::I16(-2)),
        (Primitive::I32, (-70000i32).to_le_bytes().to_vec(), Value::I32(-70000)),
        (Primitive::I64, (-5_000_000_000i64).to_le_bytes().to_vec(), Value::I64(-5_000_000_000)),
        (Primitive::I128, (-1i128).to_le_bytes().to_vec(), Value::I128(-1)),
        (Primitive::Char, ('✓' as u32).to_le_bytes().to_vec(), Value::Char('✓')),
    ];
    for (p, bytes, expected) in cases {
        let reg = reg_of(vec![TypeDef::Primitive(p)]);
        let (v, consumed) = decode_value(&bytes, 0, &reg).unwrap();
        assert_eq!(v, expected);
        assert_eq!(consumed, bytes.len());

        // One byte fewer than the width fails with NotEnoughBytes.
        let short = &bytes[..bytes.len() - 1];
        let r = decode_value(short, 0, &reg);
        assert_eq!(r, Err(Error::Decode(DecodeError::NotEnoughBytes)));
    }
}

#[test]
fn u256_and_i256_take_32_bytes() {
    let mut bytes = vec![0u8; 32];
    bytes[0] = 7;
    bytes[31] = 9;
    let reg = reg_of(vec![
        TypeDef::Primitive(Primitive::U256),
        TypeDef::Primitive(Primitive::I256),
    ]);
    let (v, consumed) = decode_value(&bytes, 0, &reg).unwrap();
    assert_eq!(v, Value::U256(bytes.clone()));
    assert_eq!(consumed, 32);
    let (v, consumed) = decode_value(&bytes, 1, &reg).unwrap();
    assert_eq!(v, Value::I256(bytes.clone()));
    assert_eq!(consumed, 32);
    let r = decode_value(&bytes[..31], 0, &reg);
    assert_eq!(r, Err(Error::Decode(DecodeError::NotEnoughBytes)));
}

#[test]
fn string_decodes_with_length_prefix() {
    let reg = reg_of(vec![TypeDef::Primitive(Primitive::Str)]);
    let bytes = str_enc("hello");
    let (v, consumed) = decode_value(&bytes, 0, &reg).unwrap();
    assert_eq!(v, Value::Str("hello".to_string()));
    assert_eq!(consumed, bytes.len());
}

#[test]
fn invalid_utf8_fails_but_skips() {
    let reg = reg_of(vec![TypeDef::Primitive(Primitive::Str)]);
    // Length prefix declares 2 bytes; 0xFF 0xFE is not UTF-8.
    let mut bytes = compact_enc(2);
    bytes.extend_from_slice(&[0xFF, 0xFE]);
    bytes.push(0x77); // a trailing byte that belongs to whatever follows
    let r = decode_value(&bytes, 0, &reg);
    assert_eq!(r, Err(Error::Decode(DecodeError::InvalidUtf8)));

    // Skipping the same field succeeds and advances by the declared length.
    let mut data: &[u8] = &bytes;
    skip(&mut data, 0, &reg).unwrap();
    assert_eq!(data, &[0x77]);
}

#[test]
fn invalid_char_and_bool_values() {
    let reg = reg_of(vec![
        TypeDef::Primitive(Primitive::Char),
        TypeDef::Primitive(Primitive::Bool),
    ]);
    let surrogate = 0xD800u32.to_le_bytes();
    assert_eq!(
        decode_value(&surrogate, 0, &reg),
        Err(Error::Decode(DecodeError::InvalidChar(0xD800)))
    );
    assert_eq!(
        decode_value(&[2], 1, &reg),
        Err(Error::Decode(DecodeError::InvalidBool(2)))
    );
}

#[test]
fn compact_round_trip_all_modes() {
    let reg = reg_of(vec![TypeDef::Compact(CompactKind::U128)]);
    for n in [0u128, 1, 63, 64, 16383, 16384, (1 << 30) - 1, 1 << 30, u64::MAX as u128, u128::MAX]
    {
        let bytes = compact_enc(n);
        let (v, consumed) = decode_value(&bytes, 0, &reg).unwrap();
        assert_eq!(v, Value::CompactU128(n));
        assert_eq!(consumed, bytes.len());
    }
}

#[test]
fn compact_width_kinds() {
    let reg = reg_of(vec![
        TypeDef::Compact(CompactKind::U8),
        TypeDef::Compact(CompactKind::U16),
        TypeDef::Compact(CompactKind::U32),
        TypeDef::Compact(CompactKind::U64),
    ]);
    assert_eq!(decode_value(&compact_enc(200), 0, &reg).unwrap().0, Value::CompactU8(200));
    assert_eq!(decode_value(&compact_enc(60000), 1, &reg).unwrap().0, Value::CompactU16(60000));
    assert_eq!(
        decode_value(&compact_enc(4_000_000_000), 2, &reg).unwrap().0,
        Value::CompactU32(4_000_000_000)
    );
    assert_eq!(
        decode_value(&compact_enc(u64::MAX as u128), 3, &reg).unwrap().0,
        Value::CompactU64(u64::MAX)
    );
    // A value too wide for the kind is an invalid encoding of that type.
    assert_eq!(
        decode_value(&compact_enc(300), 0, &reg),
        Err(Error::Decode(DecodeError::InvalidCompactEncoding))
    );
}

#[test]
fn compact_rejects_non_minimal_encoding() {
    let reg = reg_of(vec![TypeDef::Compact(CompactKind::U32)]);
    // Value 5 wrapped in the two-byte mode: not the minimal mode for 5.
    let bytes = ((5u16 << 2) | 0b01).to_le_bytes();
    assert_eq!(
        decode_value(&bytes, 0, &reg),
        Err(Error::Decode(DecodeError::InvalidCompactEncoding))
    );
}

#[test]
fn composite_decodes_named_fields() {
    let reg = reg_of(vec![
        TypeDef::Primitive(Primitive::U8),
        TypeDef::Primitive(Primitive::Str),
        TypeDef::Composite(vec![named("a", 0), named("b", 1)]),
    ]);
    let mut bytes = vec![42u8];
    bytes.extend_from_slice(&str_enc("hi"));
    let (v, consumed) = decode_value(&bytes, 2, &reg).unwrap();
    assert_eq!(
        v,
        Value::Composite(vec![
            (Some("a".to_string()), Value::U8(42)),
            (Some("b".to_string()), Value::Str("hi".to_string())),
        ])
    );
    assert_eq!(consumed, bytes.len());
}

#[test]
fn tuple_array_sequence_decode() {
    let reg = reg_of(vec![
        TypeDef::Primitive(Primitive::U8),
        TypeDef::Primitive(Primitive::U16),
        TypeDef::Tuple(vec![unnamed(0), unnamed(1)]),
        TypeDef::Array(3, 0),
        TypeDef::Sequence(1),
    ]);
    let (v, consumed) = decode_value(&[7, 0x01, 0x02], 2, &reg).unwrap();
    assert_eq!(v, Value::Tuple(vec![Value::U8(7), Value::U16(0x0201)]));
    assert_eq!(consumed, 3);

    let (v, consumed) = decode_value(&[1, 2, 3], 3, &reg).unwrap();
    assert_eq!(v, Value::Array(vec![Value::U8(1), Value::U8(2), Value::U8(3)]));
    assert_eq!(consumed, 3);

    let mut bytes = compact_enc(2);
    bytes.extend_from_slice(&[0x01, 0x00, 0x02, 0x00]);
    let (v, consumed) = decode_value(&bytes, 4, &reg).unwrap();
    assert_eq!(v, Value::Sequence(vec![Value::U16(1), Value::U16(2)]));
    assert_eq!(consumed, bytes.len());
}

#[test]
fn sequence_with_truncated_length_prefix() {
    let reg = reg_of(vec![
        TypeDef::Primitive(Primitive::U8),
        TypeDef::Sequence(0),
    ]);
    // 0b01 low bits announce a two-byte prefix, but only one byte is there.
    let bytes = [0b0000_0001u8];
    assert_eq!(
        decode_value(&bytes, 1, &reg),
        Err(Error::Decode(DecodeError::InvalidCompactEncoding))
    );
    // The bytes were not consumed: the same failure comes from a skip,
    // which leaves the cursor untouched.
    let mut data: &[u8] = &bytes;
    assert_eq!(skip(&mut data, 1, &reg), Err(DecodeError::InvalidCompactEncoding));
    assert_eq!(data.len(), 1);
}

#[test]
fn variant_decodes_matching_discriminant() {
    let reg = reg_of(vec![
        TypeDef::Primitive(Primitive::Str),
        TypeDef::Primitive(Primitive::U128),
        TypeDef::Variant(vec![
            scale_decode::VariantDef {
                name: "Bar".to_string(),
                index: 0,
                fields: vec![named("hi", 0), named("other", 1)],
            },
            scale_decode::VariantDef {
                name: "Baz".to_string(),
                index: 1,
                fields: vec![unnamed(0)],
            },
        ]),
    ]);
    let mut bytes = vec![0x00];
    bytes.extend_from_slice(&str_enc("hello"));
    bytes.extend_from_slice(&123u128.to_le_bytes());
    let (v, consumed) = decode_value(&bytes, 2, &reg).unwrap();
    assert_eq!(
        v,
        Value::Variant(
            "Bar".to_string(),
            vec![
                (Some("hi".to_string()), Value::Str("hello".to_string())),
                (Some("other".to_string()), Value::U128(123)),
            ]
        )
    );
    assert_eq!(consumed, bytes.len());
}

#[test]
fn variant_unknown_discriminant() {
    let reg = reg_of(vec![
        TypeDef::Primitive(Primitive::U8),
        TypeDef::Variant(vec![scale_decode::VariantDef {
            name: "Only".to_string(),
            index: 0,
            fields: vec![unnamed(0)],
        }]),
    ]);
    let bytes = [5u8, 1, 2, 3];
    assert_eq!(
        decode_value(&bytes, 1, &reg),
        Err(Error::Decode(DecodeError::VariantNotFound(5)))
    );
    // No bytes beyond the discriminant are examined: the field bytes may
    // be anything, even absent.
    assert_eq!(
        decode_value(&[5u8], 1, &reg),
        Err(Error::Decode(DecodeError::VariantNotFound(5)))
    );
    let mut data: &[u8] = &bytes;
    assert_eq!(skip(&mut data, 1, &reg), Err(DecodeError::VariantNotFound(5)));
    assert_eq!(data.len(), bytes.len());
}

#[test]
fn bit_sequence_unpacks_lsb_first() {
    let reg = reg_of(vec![TypeDef::BitSequence]);
    let mut bytes = compact_enc(10);
    bytes.extend_from_slice(&[0b1010_0101, 0b0000_0011]);
    let (v, consumed) = decode_value(&bytes, 0, &reg).unwrap();
    assert_eq!(
        v,
        Value::Bits(vec![
            true, false, true, false, false, true, false, true, true, true
        ])
    );
    assert_eq!(consumed, bytes.len());
}

#[test]
fn dangling_type_id_and_depth_limit() {
    let empty = reg_of(vec![]);
    assert_eq!(
        decode_value(&[0], 7, &empty),
        Err(Error::Decode(DecodeError::TypeIdNotFound(7)))
    );

    // A composite whose only field is itself: the depth budget ends it.
    let cyclic = reg_of(vec![TypeDef::Composite(vec![unnamed(0)])]);
    assert_eq!(
        decode_value(&[0], 0, &cyclic),
        Err(Error::Decode(DecodeError::DepthLimitReached))
    );
}

#[test]
fn skip_and_decode_agree_on_consumption() {
    let reg = reg_of(vec![
        TypeDef::Primitive(Primitive::U8),
        TypeDef::Primitive(Primitive::Str),
        TypeDef::Sequence(0),
        TypeDef::Composite(vec![named("x", 1), named("s", 2), named("t", 0)]),
    ]);
    let mut bytes = str_enc("nested");
    bytes.extend_from_slice(&compact_enc(3));
    bytes.extend_from_slice(&[9, 8, 7]);
    bytes.push(0xAA);
    bytes.extend_from_slice(&[0xDE, 0xAD]); // trailing bytes past the value

    let mut decoded: &[u8] = &bytes;
    decode_with_visitor(&mut decoded, 3, &reg, ValueVisitor).unwrap();

    let mut skipped: &[u8] = &bytes;
    skip(&mut skipped, 3, &reg).unwrap();

    assert_eq!(decoded, skipped);
    assert_eq!(decoded, &[0xDE, 0xAD]);
}

#[test]
fn round_trip_every_kind() {
    let reg = reg_of(vec![
        TypeDef::Primitive(Primitive::Bool),
        TypeDef::Primitive(Primitive::Char),
        TypeDef::Primitive(Primitive::U32),
        TypeDef::Primitive(Primitive::I64),
        TypeDef::Primitive(Primitive::Str),
        TypeDef::Compact(CompactKind::U64),
        TypeDef::Sequence(2),
        TypeDef::Array(2, 0),
        TypeDef::Tuple(vec![unnamed(1), unnamed(3)]),
        TypeDef::Composite(vec![named("s", 4), named("c", 5)]),
        TypeDef::Variant(vec![scale_decode::VariantDef {
            name: "All".to_string(),
            index: 3,
            fields: vec![unnamed(6), unnamed(7), unnamed(8), unnamed(9)],
        }]),
    ]);
    let mut bytes = vec![3u8]; // discriminant
    bytes.extend_from_slice(&compact_enc(2)); // sequence of two u32
    bytes.extend_from_slice(&7u32.to_le_bytes());
    bytes.extend_from_slice(&8u32.to_le_bytes());
    bytes.extend_from_slice(&[1, 0]); // array of two bools
    bytes.extend_from_slice(&('é' as u32).to_le_bytes()); // tuple: char, i64
    bytes.extend_from_slice(&(-9i64).to_le_bytes());
    bytes.extend_from_slice(&str_enc("end")); // composite: str, compact u64
    bytes.extend_from_slice(&compact_enc(1_000_000));

    let (v, consumed) = decode_value(&bytes, 10, &reg).unwrap();
    assert_eq!(
        v,
        Value::Variant(
            "All".to_string(),
            vec![
                (None, Value::Sequence(vec![Value::U32(7), Value::U32(8)])),
                (None, Value::Array(vec![Value::Bool(true), Value::Bool(false)])),
                (None, Value::Tuple(vec![Value::Char('é'), Value::I64(-9)])),
                (
                    None,
                    Value::Composite(vec![
                        (Some("s".to_string()), Value::Str("end".to_string())),
                        (Some("c".to_string()), Value::CompactU64(1_000_000)),
                    ])
                ),
            ]
        )
    );
    assert_eq!(consumed, bytes.len());
}

#[test]
fn empty_shapes_consume_nothing() {
    let reg = reg_of(vec![
        TypeDef::Composite(vec![]),
        TypeDef::Tuple(vec![]),
        TypeDef::Primitive(Primitive::U8),
        TypeDef::Sequence(2),
        TypeDef::Primitive(Primitive::Str),
    ]);
    assert_eq!(decode_value(&[], 0, &reg).unwrap(), (Value::Composite(vec![]), 0));
    assert_eq!(decode_value(&[], 1, &reg).unwrap(), (Value::Tuple(vec![]), 0));
    let empty_seq = compact_enc(0);
    assert_eq!(
        decode_value(&empty_seq, 3, &reg).unwrap(),
        (Value::Sequence(vec![]), 1)
    );
    let empty_str = compact_enc(0);
    assert_eq!(
        decode_value(&empty_str, 4, &reg).unwrap(),
        (Value::Str(String::new()), 1)
    );
}

#[test]
fn empty_bit_sequence() {
    let reg = reg_of(vec![TypeDef::BitSequence]);
    let bytes = compact_enc(0);
    let (v, consumed) = decode_value(&bytes, 0, &reg).unwrap();
    assert_eq!(v, Value::Bits(vec![]));
    assert_eq!(consumed, 1);
}

#[test]
fn compact_big_mode_rejects_padded_value() {
    let reg = reg_of(vec![TypeDef::Compact(CompactKind::U128)]);
    // Five payload bytes whose most significant byte is zero: the value
    // needed only four, so the encoding is not minimal.
    let bytes = [0b0000_0111u8, 0xFF, 0xFF, 0xFF, 0xFF, 0x00];
    assert_eq!(
        decode_value(&bytes, 0, &reg),
        Err(Error::Decode(DecodeError::InvalidCompactEncoding))
    );
}

#[test]
fn second_variant_alternative_decodes() {
    let reg = reg_of(vec![
        TypeDef::Primitive(Primitive::U8),
        TypeDef::Variant(vec![
            scale_decode::VariantDef {
                name: "A".to_string(),
                index: 0,
                fields: vec![],
            },
            scale_decode::VariantDef {
                name: "B".to_string(),
                index: 7,
                fields: vec![unnamed(0)],
            },
        ]),
    ]);
    let (v, consumed) = decode_value(&[7, 99], 1, &reg).unwrap();
    assert_eq!(v, Value::Variant("B".to_string(), vec![(None, Value::U8(99))]));
    assert_eq!(consumed, 2);
    let (v, consumed) = decode_value(&[0], 1, &reg).unwrap();
    assert_eq!(v, Value::Variant("A".to_string(), vec![]));
    assert_eq!(consumed, 1);
}

#[test]
fn variant_with_no_bytes_at_all() {
    let reg = reg_of(vec![TypeDef::Variant(vec![])]);
    assert_eq!(
        decode_value(&[], 0, &reg),
        Err(Error::Decode(DecodeError::NotEnoughBytes))
    );
}

#[test]
fn bit_sequence_short_of_packed_bytes() {
    let reg = reg_of(vec![TypeDef::BitSequence]);
    let mut bytes = compact_enc(9); // needs two packed bytes
    bytes.push(0xFF); // only one present
    assert_eq!(
        decode_value(&bytes, 0, &reg),
        Err(Error::Decode(DecodeError::NotEnoughBytes))
    );
}
