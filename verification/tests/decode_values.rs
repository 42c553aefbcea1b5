//! Type-directed value decoding: composites, sparse variants, sequences,
//! primitives, bit sequences, and every error the decoder can raise.

use desub::cursor::ByteCursor;
use desub::error::{DecodeError, TypeDefKind};
use desub::extrinsic::Decoder;
use desub::metadata::{Metadata, MetadataExtrinsic};
use desub::registry::{Field, PortableRegistry, PortableType, PrimitiveKind, TypeId, TypeDef,
    VariantDef};
use desub::value::{Composite, Primitive, Value, Variant};

fn prim(id: u32, kind: PrimitiveKind) -> PortableType {
    PortableType { id, path: vec![], def: TypeDef::Primitive { kind } }
}

fn unnamed_field(ty: u32) -> Field {
    Field { name: None, ty: TypeId::from_u32(ty) }
}

fn variant(name: &str, index: u8, fields: Vec<Field>) -> VariantDef {
    VariantDef { name: name.to_string(), index, fields }
}

/// A registry exercising each definition kind.
fn registry() -> PortableRegistry {
    let types = vec![
        prim(1, PrimitiveKind::U8),
        prim(2, PrimitiveKind::U16),
        prim(3, PrimitiveKind::U32),
        prim(4, PrimitiveKind::U64),
        prim(5, PrimitiveKind::U128),
        prim(6, PrimitiveKind::U256),
        prim(7, PrimitiveKind::I8),
        prim(8, PrimitiveKind::I32),
        prim(9, PrimitiveKind::Bool),
        prim(10, PrimitiveKind::Char),
        prim(11, PrimitiveKind::Str),
        // empty, single-field and nested composites
        PortableType { id: 20, path: vec![], def: TypeDef::Composite { fields: vec![] } },
        PortableType { id: 21, path: vec![], def: TypeDef::Composite { fields: vec![unnamed_field(3)] } },
        PortableType { id: 22, path: vec![], def: TypeDef::Composite { fields: vec![unnamed_field(21)] } },
        PortableType { id: 23, path: vec![], def: TypeDef::Composite { fields: vec![unnamed_field(22)] } },
        // a variant with sparse discriminants
        PortableType {
            id: 30,
            path: vec![],
            def: TypeDef::Variant {
                variants: vec![
                    variant("A", 0, vec![]),
                    variant("B", 7, vec![unnamed_field(1)]),
                    variant("C", 255, vec![]),
                ],
            },
        },
        // sequences, arrays, tuples
        PortableType { id: 40, path: vec![], def: TypeDef::Sequence { element: TypeId::from_u32(1) } },
        PortableType { id: 41, path: vec![], def: TypeDef::Array { len: 3, element: TypeId::from_u32(1) } },
        PortableType {
            id: 42,
            path: vec![],
            def: TypeDef::Tuple { elements: vec![TypeId::from_u32(1), TypeId::from_u32(9)] },
        },
        // compact wrappers
        PortableType { id: 50, path: vec![], def: TypeDef::Compact { inner: TypeId::from_u32(3) } },
        PortableType { id: 51, path: vec![], def: TypeDef::Compact { inner: TypeId::from_u32(21) } },
        PortableType { id: 52, path: vec![], def: TypeDef::Compact { inner: TypeId::from_u32(6) } },
        PortableType { id: 53, path: vec![], def: TypeDef::Compact { inner: TypeId::from_u32(9) } },
        // bit sequences over u8 words, both orders
        PortableType {
            id: 60,
            path: vec!["bitvec".to_string(), "order".to_string(), "Lsb0".to_string()],
            def: TypeDef::Composite { fields: vec![] },
        },
        PortableType {
            id: 61,
            path: vec!["bitvec".to_string(), "order".to_string(), "Msb0".to_string()],
            def: TypeDef::Composite { fields: vec![] },
        },
        PortableType {
            id: 62,
            path: vec![],
            def: TypeDef::BitSequence { store: TypeId::from_u32(1), order: TypeId::from_u32(60) },
        },
        PortableType {
            id: 63,
            path: vec![],
            def: TypeDef::BitSequence { store: TypeId::from_u32(1), order: TypeId::from_u32(61) },
        },
        // a composite that contains itself without consuming input
        PortableType { id: 70, path: vec![], def: TypeDef::Composite { fields: vec![unnamed_field(70)] } },
    ];
    PortableRegistry { types }
}

fn decoder() -> Decoder {
    let extrinsic = MetadataExtrinsic {
        version: 4,
        address_ty: TypeId::from_u32(1),
        signature_ty: TypeId::from_u32(1),
        signed_extensions: vec![],
    };
    let metadata = Metadata::new(registry(), vec![], extrinsic).expect("valid metadata");
    Decoder::with_metadata(metadata)
}

fn decode_all(d: &Decoder, ty: u32, bytes: &[u8]) -> Result<(Value, usize), DecodeError> {
    let mut cursor = ByteCursor::new(bytes);
    let v = d.decode(TypeId::from_u32(ty), &mut cursor)?;
    Ok((v, cursor.offset()))
}

#[test]
fn empty_composite_consumes_nothing() {
    let d = decoder();
    let (v, used) = decode_all(&d, 20, &[]).expect("empty composite");
    assert_eq!(v, Value::Composite(Composite::Unnamed(vec![])));
    assert_eq!(used, 0);
}

#[test]
fn single_field_composite() {
    let d = decoder();
    let (v, used) = decode_all(&d, 21, &[0x2a, 0, 0, 0]).expect("one u32 field");
    assert_eq!(v, Value::Composite(Composite::Unnamed(vec![Value::Primitive(Primitive::U32(42))])));
    assert_eq!(used, 4);
}

#[test]
fn deeply_nested_composite() {
    let d = decoder();
    let (v, _) = decode_all(&d, 23, &[0x07, 0, 0, 0]).expect("nested composites");
    let inner = Value::Composite(Composite::Unnamed(vec![Value::Primitive(Primitive::U32(7))]));
    let mid = Value::Composite(Composite::Unnamed(vec![inner]));
    assert_eq!(v, Value::Composite(Composite::Unnamed(vec![mid])));
}

#[test]
fn sparse_variant_discriminants() {
    let d = decoder();
    let (v, _) = decode_all(&d, 30, &[0x00]).expect("variant A");
    assert_eq!(
        v,
        Value::Variant(Variant { name: "A".to_string(), values: Composite::Unnamed(vec![]) })
    );
    let (v, _) = decode_all(&d, 30, &[0x07, 0x09]).expect("variant B");
    assert_eq!(
        v,
        Value::Variant(Variant {
            name: "B".to_string(),
            values: Composite::Unnamed(vec![Value::Primitive(Primitive::U8(9))]),
        })
    );
    let (v, _) = decode_all(&d, 30, &[0xff]).expect("variant C");
    assert_eq!(
        v,
        Value::Variant(Variant { name: "C".to_string(), values: Composite::Unnamed(vec![]) })
    );
}

#[test]
fn variant_not_found() {
    let d = decoder();
    assert_eq!(
        decode_all(&d, 30, &[0x03]),
        Err(DecodeError::VariantNotFound { type_id: 30, discriminant: 3 })
    );
}

#[test]
fn zero_length_sequence() {
    let d = decoder();
    let (v, used) = decode_all(&d, 40, &[0x00]).expect("empty sequence");
    assert_eq!(v, Value::Composite(Composite::Unnamed(vec![])));
    assert_eq!(used, 1);
}

#[test]
fn sequence_length_matches_prefix() {
    let d = decoder();
    let (v, used) = decode_all(&d, 40, &[0x0c, 1, 2, 3]).expect("three bytes");
    assert_eq!(
        v,
        Value::Composite(Composite::Unnamed(vec![
            Value::Primitive(Primitive::U8(1)),
            Value::Primitive(Primitive::U8(2)),
            Value::Primitive(Primitive::U8(3)),
        ]))
    );
    assert_eq!(used, 4);
}

#[test]
fn long_sequence_within_budget() {
    let d = decoder();
    // 300 bytes: the length prefix takes the two-byte mode.
    let mut bytes = vec![0xb1, 0x04];
    bytes.extend(std::iter::repeat(0xabu8).take(300));
    let (v, used) = decode_all(&d, 40, &bytes).expect("300 bytes");
    match v {
        Value::Composite(Composite::Unnamed(items)) => assert_eq!(items.len(), 300),
        other => panic!("expected a composite of 300 items, got {:?}", other),
    }
    assert_eq!(used, 302);
}

#[test]
fn array_fixed_length_no_prefix() {
    let d = decoder();
    let (v, used) = decode_all(&d, 41, &[7, 8, 9]).expect("three-byte array");
    assert_eq!(
        v,
        Value::Sequence(vec![
            Value::Primitive(Primitive::U8(7)),
            Value::Primitive(Primitive::U8(8)),
            Value::Primitive(Primitive::U8(9)),
        ])
    );
    assert_eq!(used, 3);
}

#[test]
fn tuple_decodes_as_unnamed_composite() {
    let d = decoder();
    let (v, _) = decode_all(&d, 42, &[5, 1]).expect("a (u8, bool) tuple");
    assert_eq!(
        v,
        Value::Composite(Composite::Unnamed(vec![
            Value::Primitive(Primitive::U8(5)),
            Value::Primitive(Primitive::Bool(true)),
        ]))
    );
}

#[test]
fn compact_u32_value() {
    let d = decoder();
    let (v, used) = decode_all(&d, 50, &[0x04]).expect("compact 1");
    assert_eq!(v, Value::Primitive(Primitive::U32(1)));
    assert_eq!(used, 1);
}

#[test]
fn compact_peels_and_rewraps_newtype() {
    let d = decoder();
    let (v, _) = decode_all(&d, 51, &[0x08]).expect("compact newtype");
    assert_eq!(v, Value::Composite(Composite::Unnamed(vec![Value::Primitive(Primitive::U32(2))])));
}

#[test]
fn compact_u256_keeps_value_bytes() {
    let d = decoder();
    let (v, _) = decode_all(&d, 52, &[0x14]).expect("compact 5 into u256");
    let mut expected = [0u8; 32];
    expected[0] = 5;
    assert_eq!(v, Value::Primitive(Primitive::U256(expected)));
}

#[test]
fn compact_over_non_integer_is_unsupported() {
    let d = decoder();
    assert_eq!(
        decode_all(&d, 53, &[0x00]),
        Err(DecodeError::UnsupportedTypeDefinition { kind: TypeDefKind::Primitive })
    );
}

#[test]
fn compact_overflow_into_u32() {
    let d = decoder();
    // 2^32 needs five value bytes and cannot land in a u32.
    assert_eq!(
        decode_all(&d, 50, &[0x07, 0x00, 0x00, 0x00, 0x00, 0x01]),
        Err(DecodeError::CompactOverflow { declared_width: 4, value_bytes: 5 })
    );
}

#[test]
fn bool_values() {
    let d = decoder();
    let (v, _) = decode_all(&d, 9, &[0x00]).expect("false");
    assert_eq!(v, Value::Primitive(Primitive::Bool(false)));
    let (v, _) = decode_all(&d, 9, &[0x01]).expect("true");
    assert_eq!(v, Value::Primitive(Primitive::Bool(true)));
    assert_eq!(decode_all(&d, 9, &[0x02]), Err(DecodeError::InvalidBool { byte: 2 }));
}

#[test]
fn char_values() {
    let d = decoder();
    let (v, _) = decode_all(&d, 10, &[0x41, 0, 0, 0]).expect("the letter A");
    assert_eq!(v, Value::Primitive(Primitive::Char('A')));
    // a surrogate code point is not a char
    assert_eq!(
        decode_all(&d, 10, &[0x00, 0xd8, 0, 0]),
        Err(DecodeError::InvalidChar { code_point: 0xd800 })
    );
}

#[test]
fn str_values() {
    let d = decoder();
    let (v, used) = decode_all(&d, 11, &[0x08, 0x68, 0x69]).expect("the string hi");
    assert_eq!(v, Value::Primitive(Primitive::Str("hi".to_string())));
    assert_eq!(used, 3);
}

#[test]
fn zero_length_string() {
    let d = decoder();
    let (v, used) = decode_all(&d, 11, &[0x00]).expect("empty string");
    assert_eq!(v, Value::Primitive(Primitive::Str(String::new())));
    assert_eq!(used, 1);
}

#[test]
fn invalid_utf8_string() {
    let d = decoder();
    assert_eq!(
        decode_all(&d, 11, &[0x04, 0xff]),
        Err(DecodeError::InvalidUtf8 { offset: 1 })
    );
}

#[test]
fn unsigned_primitives_little_endian() {
    let d = decoder();
    let (v, _) = decode_all(&d, 2, &[0x34, 0x12]).expect("u16");
    assert_eq!(v, Value::Primitive(Primitive::U16(0x1234)));
    let (v, _) = decode_all(&d, 4, &[1, 0, 0, 0, 0, 0, 0, 0]).expect("u64");
    assert_eq!(v, Value::Primitive(Primitive::U64(1)));
    let mut bytes = vec![0u8; 16];
    bytes[15] = 0x80;
    let (v, _) = decode_all(&d, 5, &bytes).expect("u128");
    assert_eq!(v, Value::Primitive(Primitive::U128(1u128 << 127)));
}

#[test]
fn u256_preserves_raw_bytes() {
    let d = decoder();
    let bytes: Vec<u8> = (0..32).collect();
    let (v, used) = decode_all(&d, 6, &bytes).expect("u256");
    let mut expected = [0u8; 32];
    for (i, b) in bytes.iter().enumerate() {
        expected[i] = *b;
    }
    assert_eq!(v, Value::Primitive(Primitive::U256(expected)));
    assert_eq!(used, 32);
}

#[test]
fn signed_primitives_two_complement() {
    let d = decoder();
    let (v, _) = decode_all(&d, 7, &[0xff]).expect("i8");
    assert_eq!(v, Value::Primitive(Primitive::I8(-1)));
    let (v, _) = decode_all(&d, 8, &[0xfe, 0xff, 0xff, 0xff]).expect("i32");
    assert_eq!(v, Value::Primitive(Primitive::I32(-2)));
}

#[test]
fn bit_sequence_lsb0() {
    let d = decoder();
    // four bits out of one 0x0a word, least significant bit first
    let (v, used) = decode_all(&d, 62, &[0x10, 0x0a]).expect("bit sequence");
    assert_eq!(v, Value::BitSequence(vec![false, true, false, true]));
    assert_eq!(used, 2);
}

#[test]
fn bit_sequence_msb0() {
    let d = decoder();
    let (v, _) = decode_all(&d, 63, &[0x10, 0xa0]).expect("bit sequence");
    assert_eq!(v, Value::BitSequence(vec![true, false, true, false]));
}

#[test]
fn bit_sequence_spans_words() {
    let d = decoder();
    // nine bits need two u8 words
    let (v, used) = decode_all(&d, 62, &[0x24, 0xff, 0x01]).expect("nine bits");
    assert_eq!(
        v,
        Value::BitSequence(vec![true, true, true, true, true, true, true, true, true])
    );
    assert_eq!(used, 3);
}

#[test]
fn type_not_found() {
    let d = decoder();
    assert_eq!(decode_all(&d, 99, &[]), Err(DecodeError::TypeNotFound { id: 99 }));
}

#[test]
fn unexpected_eof_reports_need_and_offset() {
    let d = decoder();
    assert_eq!(
        decode_all(&d, 3, &[1, 2]),
        Err(DecodeError::UnexpectedEof { need: 4, have: 2, offset: 0 })
    );
}

#[test]
fn self_referential_composite_is_rejected() {
    let d = decoder();
    let r = decode_all(&d, 70, &[0x00]);
    assert!(matches!(r, Err(DecodeError::RecursionLimit { type_id: 70, .. })));
}

#[test]
fn unsupported_extrinsic_version() {
    let d = decoder();
    assert_eq!(
        d.decode_unwrapped_extrinsic(&[0x05, 0x00, 0x00]).map(|e| e.pallet),
        Err(DecodeError::UnsupportedExtrinsicVersion { got: 5, expected: 4 })
    );
}

#[test]
fn call_not_found() {
    let d = decoder();
    assert_eq!(
        d.decode_unwrapped_extrinsic(&[0x04, 0x00, 0x00]).map(|e| e.pallet),
        Err(DecodeError::CallNotFound { pallet: 0, call: 0 })
    );
}

#[test]
fn trailing_bytes_after_wrapped_extrinsic() {
    let d = decoder();
    // length prefix says one byte, two follow
    assert_eq!(
        d.decode_extrinsic(&[0x04, 0x04, 0x00]).map(|e| e.pallet),
        Err(DecodeError::TrailingBytes { remaining: 1, offset: 2 })
    );
}

#[test]
fn signed_extrinsic_with_zero_extensions() {
    // address and signature are single bytes here, and no signed extensions
    // are declared: the signature area is three bytes long.
    let types = vec![
        prim(1, PrimitiveKind::U8),
        PortableType {
            id: 2,
            path: vec![],
            def: TypeDef::Variant {
                variants: vec![variant("go", 0, vec![unnamed_field(1)])],
            },
        },
    ];
    let extrinsic = MetadataExtrinsic {
        version: 4,
        address_ty: TypeId::from_u32(1),
        signature_ty: TypeId::from_u32(1),
        signed_extensions: vec![],
    };
    let metadata = Metadata::new(
        PortableRegistry { types },
        vec![(0u8, "Pallet".to_string(), Some(TypeId::from_u32(2)))],
        extrinsic,
    )
    .expect("valid metadata");
    let d = Decoder::with_metadata(metadata);
    let ext = d.decode_unwrapped_extrinsic(&[0x84, 0xaa, 0xbb, 0x00, 0x00, 0x2a])
        .expect("signed, no extensions");
    assert_eq!(ext.pallet, "Pallet".to_string());
    assert_eq!(ext.call, "go".to_string());
    assert_eq!(ext.arguments, vec![Value::Primitive(Primitive::U8(42))]);
    let sig = ext.signature.expect("signed");
    assert_eq!(sig.address, Value::Primitive(Primitive::U8(0xaa)));
    assert_eq!(sig.signature, Value::Primitive(Primitive::U8(0xbb)));
    assert_eq!(sig.extensions, vec![]);
}

#[test]
fn registry_as_variant() {
    let reg = registry();
    match reg.as_variant(TypeId::from_u32(30)) {
        Ok(vs) => {
            assert_eq!(vs.len(), 3);
            assert_eq!(vs[0].name, "A".to_string());
        }
        Err(e) => panic!("expected a variant list, got {:?}", e),
    }
    assert_eq!(
        reg.as_variant(TypeId::from_u32(1)).err(),
        Some(DecodeError::ExpectedVariantType { got: TypeDefKind::Primitive })
    );
    assert_eq!(
        reg.as_variant(TypeId::from_u32(99)).err(),
        Some(DecodeError::TypeNotFound { id: 99 })
    );
}

#[test]
fn metadata_get_variant() {
    let d = decoder();
    let m = d.metadata();
    assert!(m.get_variant(TypeId::from_u32(30)).is_some());
    assert!(m.get_variant(TypeId::from_u32(1)).is_none());
    assert!(m.get_variant(TypeId::from_u32(99)).is_none());
}
