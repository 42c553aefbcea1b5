//! Decoding of realistic extrinsics against a metadata value that mirrors
//! the relevant corner of a live chain's registry: compact-wrapped newtypes,
//! nested call variants, byte sequences, named structs, and a signed
//! envelope with mortality, nonce and tip extensions.

use desub::extrinsic::Decoder;
use desub::metadata::{Metadata, MetadataExtrinsic, SignedExtensionMetadata};
use desub::registry::{Field, PortableRegistry, PortableType, PrimitiveKind, TypeDef, TypeId,
    VariantDef};
use desub::value::{Composite, Primitive, Value, Variant};

fn to_bytes(hex_str: &str) -> Vec<u8> {
    let hex_str = hex_str.strip_prefix("0x").expect("0x should prefix hex encoded bytes");
    let chars: Vec<char> = hex_str.chars().collect();
    assert!(chars.len() % 2 == 0, "valid bytes from hex");
    chars
        .chunks(2)
        .map(|p| {
            let s: String = p.iter().collect();
            u8::from_str_radix(&s, 16).expect("valid bytes from hex")
        })
        .collect()
}

fn prim(id: u32, kind: PrimitiveKind) -> PortableType {
    PortableType { id, path: vec![], def: TypeDef::Primitive { kind } }
}

fn unnamed_field(ty: u32) -> Field {
    Field { name: None, ty: TypeId::from_u32(ty) }
}

fn named_field(name: &str, ty: u32) -> Field {
    Field { name: Some(name.to_string()), ty: TypeId::from_u32(ty) }
}

fn variant(name: &str, index: u8, fields: Vec<Field>) -> VariantDef {
    VariantDef { name: name.to_string(), index, fields }
}

/// A registry with the types the tests below decode against.
fn registry() -> PortableRegistry {
    let types = vec![
        prim(1, PrimitiveKind::U32),
        prim(2, PrimitiveKind::U128),
        prim(3, PrimitiveKind::U8),
        prim(10, PrimitiveKind::Bool),
        // Compact<newtype over u32>
        PortableType { id: 20, path: vec![], def: TypeDef::Compact { inner: TypeId::from_u32(21) } },
        // a single-field unnamed composite over u32 (a typical index newtype)
        PortableType { id: 21, path: vec![], def: TypeDef::Composite { fields: vec![unnamed_field(1)] } },
        // Compact<u32> and Compact<u128>
        PortableType { id: 22, path: vec![], def: TypeDef::Compact { inner: TypeId::from_u32(1) } },
        PortableType { id: 23, path: vec![], def: TypeDef::Compact { inner: TypeId::from_u32(2) } },
        // the address: a variant whose `Id` carries a 32-byte account
        PortableType {
            id: 40,
            path: vec![],
            def: TypeDef::Variant { variants: vec![variant("Id", 0, vec![unnamed_field(41)])] },
        },
        PortableType { id: 41, path: vec![], def: TypeDef::Array { len: 32, element: TypeId::from_u32(3) } },
        // the signature: one of three 64-byte schemes
        PortableType {
            id: 42,
            path: vec![],
            def: TypeDef::Variant {
                variants: vec![
                    variant("Ed25519", 0, vec![unnamed_field(43)]),
                    variant("Sr25519", 1, vec![unnamed_field(43)]),
                    variant("Ecdsa", 2, vec![unnamed_field(43)]),
                ],
            },
        },
        PortableType { id: 43, path: vec![], def: TypeDef::Array { len: 64, element: TypeId::from_u32(3) } },
        // the era: sparse discriminants, one payload byte when mortal
        PortableType {
            id: 44,
            path: vec![],
            def: TypeDef::Variant {
                variants: vec![
                    variant("Immortal", 0, vec![]),
                    variant("Mortal21", 21, vec![unnamed_field(3)]),
                    variant("Mortal69", 69, vec![unnamed_field(3)]),
                ],
            },
        },
        // Vec<u8>
        PortableType { id: 45, path: vec![], def: TypeDef::Sequence { element: TypeId::from_u32(3) } },
        // a vesting schedule: a named struct
        PortableType {
            id: 46,
            path: vec![],
            def: TypeDef::Composite {
                fields: vec![
                    named_field("locked", 2),
                    named_field("per_block", 2),
                    named_field("starting_block", 1),
                ],
            },
        },
        // the outer call: pallets by their dispatch index
        PortableType {
            id: 30,
            path: vec![],
            def: TypeDef::Variant { variants: vec![variant("Balances", 5, vec![unnamed_field(31)])] },
        },
        // the Balances calls: discriminants differ from positions
        PortableType {
            id: 31,
            path: vec![],
            def: TypeDef::Variant {
                variants: vec![
                    variant("transfer", 0, vec![named_field("dest", 40), named_field("value", 23)]),
                    variant("transfer_all", 4, vec![named_field("dest", 40), named_field("keep_alive", 10)]),
                ],
            },
        },
        // per-pallet call types
        PortableType {
            id: 60,
            path: vec![],
            def: TypeDef::Variant { variants: vec![variant("fill_block", 0, vec![unnamed_field(21)])] },
        },
        PortableType {
            id: 61,
            path: vec![],
            def: TypeDef::Variant {
                variants: vec![variant(
                    "execute",
                    1,
                    vec![named_field("proposal", 30), named_field("length_bound", 22)],
                )],
            },
        },
        PortableType {
            id: 62,
            path: vec![],
            def: TypeDef::Variant {
                variants: vec![variant(
                    "force_vested_transfer",
                    3,
                    vec![
                        named_field("source", 40),
                        named_field("target", 40),
                        named_field("schedule", 46),
                    ],
                )],
            },
        },
        PortableType {
            id: 63,
            path: vec![],
            def: TypeDef::Variant {
                variants: vec![variant(
                    "report_awesome",
                    0,
                    vec![named_field("reason", 45), named_field("who", 41)],
                )],
            },
        },
        PortableType {
            id: 64,
            path: vec![],
            def: TypeDef::Variant {
                variants: vec![variant(
                    "bid",
                    1,
                    vec![
                        unnamed_field(20),
                        unnamed_field(22),
                        unnamed_field(22),
                        unnamed_field(22),
                        unnamed_field(23),
                    ],
                )],
            },
        },
        // the empty tuple, for additional-signed payloads that carry nothing
        PortableType { id: 50, path: vec![], def: TypeDef::Tuple { elements: vec![] } },
    ];
    PortableRegistry { types }
}

fn metadata() -> Metadata {
    let pallets = vec![
        (0u8, "System".to_string(), Some(TypeId::from_u32(60))),
        (5u8, "Balances".to_string(), Some(TypeId::from_u32(31))),
        (16u8, "TechnicalCommittee".to_string(), Some(TypeId::from_u32(61))),
        (25u8, "Vesting".to_string(), Some(TypeId::from_u32(62))),
        (35u8, "Tips".to_string(), Some(TypeId::from_u32(63))),
        (72u8, "Auctions".to_string(), Some(TypeId::from_u32(64))),
    ];
    let extrinsic = MetadataExtrinsic {
        version: 4,
        address_ty: TypeId::from_u32(40),
        signature_ty: TypeId::from_u32(42),
        signed_extensions: vec![
            SignedExtensionMetadata {
                identifier: "CheckMortality".to_string(),
                ty: TypeId::from_u32(44),
                additional_signed: TypeId::from_u32(50),
            },
            SignedExtensionMetadata {
                identifier: "CheckNonce".to_string(),
                ty: TypeId::from_u32(22),
                additional_signed: TypeId::from_u32(50),
            },
            SignedExtensionMetadata {
                identifier: "ChargeTransactionPayment".to_string(),
                ty: TypeId::from_u32(23),
                additional_signed: TypeId::from_u32(50),
            },
        ],
    };
    Metadata::new(registry(), pallets, extrinsic).expect("valid metadata")
}

fn decoder() -> Decoder {
    Decoder::with_metadata(metadata())
}

#[test]
fn balance_transfer_signed() {
    let d = decoder();

    // Balances.transfer (amount: 12345)
    let ext_bytes = to_bytes("0x31028400d43593c715fdd31c61141abd04a99fd6822c8558854ccde39a5684e7a56da27d016ada9b477ef454972200e098f1186d4a2aeee776f1f6a68609797f5ba052906ad2427bdca865442158d118e2dfc82226077e4dfdff975d005685bab66eefa38a150200000500001cbd2d43530a44705ad088af313e18f80b53ef16b36177cd4b77b846f2a5f07ce5c0");
    let ext = d.decode_extrinsic(&ext_bytes).expect("can decode extrinsic");

    assert_eq!(ext.pallet, "Balances".to_string());
    assert_eq!(ext.call, "transfer".to_string());
    assert_eq!(ext.arguments.len(), 2);
    assert_eq!(ext.arguments[1], Value::Primitive(Primitive::U128(12345)));
}

#[test]
fn balance_transfer_all_signed() {
    let d = decoder();

    // Balances.transfer_all (keepalive: false)
    let ext_bytes = to_bytes("0x2d028400d43593c715fdd31c61141abd04a99fd6822c8558854ccde39a5684e7a56da27d01f0431ffe387134b4f84d92d3c3f1ac18c0f42237ad7dbd455bb0cf8a18efb1760528f052b2219ad1601d9a4719e1a446cf307bf6d7e9c56175bfe6e7bf8cbe81450304000504001cbd2d43530a44705ad088af313e18f80b53ef16b36177cd4b77b846f2a5f07c00");
    let ext = d.decode_extrinsic(&ext_bytes).expect("can decode extrinsic");

    assert_eq!(ext.pallet, "Balances".to_string());
    assert_eq!(ext.call, "transfer_all".to_string());
    assert_eq!(ext.arguments.len(), 2);
    assert_eq!(ext.arguments[1], Value::Primitive(Primitive::Bool(false)));
}

/// This test is interesting because:
/// a) The Auctions pallet index is not the same as where it is listed in the list of pallets.
/// b) One of the arguments is a compact-encoded wrapper struct, which caused a hiccup.
#[test]
fn auctions_bid_unsigned() {
    let d = decoder();

    // Auctions.bid (Args: (1,), 2, 3, 4, 5, all compact encoded).
    let ext_bytes = to_bytes("0x04480104080c1014");
    let ext = d.decode_unwrapped_extrinsic(&ext_bytes).expect("can decode extrinsic");

    assert_eq!(ext.pallet, "Auctions".to_string());
    assert_eq!(ext.call, "bid".to_string());
    assert_eq!(ext.arguments.len(), 5);

    assert_eq!(
        ext.arguments,
        vec![
            Value::Composite(Composite::Unnamed(vec![Value::Primitive(Primitive::U32(1))])),
            Value::Primitive(Primitive::U32(2)),
            Value::Primitive(Primitive::U32(3)),
            Value::Primitive(Primitive::U32(4)),
            Value::Primitive(Primitive::U128(5)),
        ]
    );
}

#[test]
fn system_fill_block_unsigned() {
    let d = decoder();

    // System.fill_block (Args: Perblock(1234)).
    let ext_bytes = to_bytes("0x040000d2040000");
    let ext = d.decode_unwrapped_extrinsic(&ext_bytes).expect("can decode extrinsic");

    assert_eq!(ext.pallet, "System".to_string());
    assert_eq!(ext.call, "fill_block".to_string());
    assert_eq!(ext.arguments.len(), 1);

    assert_eq!(
        ext.arguments,
        vec![Value::Composite(Composite::Unnamed(vec![Value::Primitive(Primitive::U32(1234))])),]
    );
}

/// This test is interesting because you provide a nested enum representing a call
/// as an argument to this call.
#[test]
fn technical_committee_execute_unsigned() {
    let d = decoder();

    // TechnicalCommittee.execute (Args: Balances.transfer(Alice -> Bob, 12345), 500).
    let ext_bytes = to_bytes("0x0410010500001cbd2d43530a44705ad088af313e18f80b53ef16b36177cd4b77b846f2a5f07ce5c0d107");
    let ext = d.decode_unwrapped_extrinsic(&ext_bytes).expect("can decode extrinsic");

    assert_eq!(ext.pallet, "TechnicalCommittee".to_string());
    assert_eq!(ext.call, "execute".to_string());
    assert_eq!(ext.arguments.len(), 2);

    // It's a bit hard matching the entire thing, so we just verify that the first arg looks like
    // a variant representing a call to "Balances.transfer".
    assert!(matches!(&ext.arguments[0],
        Value::Variant(Variant {
            name,
            values: Composite::Unnamed(args)
        })
        if &**name == "Balances"
        && matches!(&args[0], Value::Variant(Variant { name, ..}) if &**name == "transfer")
    ));
    assert_eq!(&ext.arguments[1], &Value::Primitive(Primitive::U32(500)));
}

#[test]
fn tips_report_awesome_unsigned() {
    let d = decoder();

    // Tips.report_awesome (Args: b"This person rocks!", AccountId).
    let ext_bytes = to_bytes("0x042300485468697320706572736f6e20726f636b73211cbd2d43530a44705ad088af313e18f80b53ef16b36177cd4b77b846f2a5f07c");
    let ext = d.decode_unwrapped_extrinsic(&ext_bytes).expect("can decode extrinsic");

    assert_eq!(ext.pallet, "Tips".to_string());
    assert_eq!(ext.call, "report_awesome".to_string());
    assert_eq!(ext.arguments.len(), 2);
    assert_eq!(
        &ext.arguments[0],
        &Value::Composite(Composite::Unnamed(
            "This person rocks!".bytes().map(|b| Value::Primitive(Primitive::U8(b))).collect()
        ))
    );
}

// Named structs shouldn't be an issue; this extrinsic contains one.
#[test]
fn vesting_force_vested_transfer_unsigned() {
    let d = decoder();

    // Vesting.force_vested_transfer (Args: AccountId, AccountId, { locked: 1u128, perBlock: 2u128, startingBlock: 3u32 }).
    let ext_bytes = to_bytes("0x04190300d43593c715fdd31c61141abd04a99fd6822c8558854ccde39a5684e7a56da27d008eaf04151687736326c9fea17e25fc5287613693c912909cb226aa4794f26a48010000000000000000000000000000000200000000000000000000000000000003000000");
    let ext = d.decode_unwrapped_extrinsic(&ext_bytes).expect("can decode extrinsic");

    assert_eq!(ext.pallet, "Vesting".to_string());
    assert_eq!(ext.call, "force_vested_transfer".to_string());
    assert_eq!(ext.arguments.len(), 3);
    assert_eq!(
        &ext.arguments[2],
        &Value::Composite(Composite::Named(vec![
            ("locked".into(), Value::Primitive(Primitive::U128(1))),
            ("per_block".into(), Value::Primitive(Primitive::U128(2))),
            ("starting_block".into(), Value::Primitive(Primitive::U32(3))),
        ]))
    );
}

/// The decoded signature area carries the address, the signature and each
/// signed extension's payload under its name.
#[test]
fn signed_extrinsic_signature_area() {
    let d = decoder();

    let ext_bytes = to_bytes("0x31028400d43593c715fdd31c61141abd04a99fd6822c8558854ccde39a5684e7a56da27d016ada9b477ef454972200e098f1186d4a2aeee776f1f6a68609797f5ba052906ad2427bdca865442158d118e2dfc82226077e4dfdff975d005685bab66eefa38a150200000500001cbd2d43530a44705ad088af313e18f80b53ef16b36177cd4b77b846f2a5f07ce5c0");
    let ext = d.decode_extrinsic(&ext_bytes).expect("can decode extrinsic");

    let sig = ext.signature.expect("signed extrinsic carries a signature");
    assert!(matches!(&sig.address, Value::Variant(Variant { name, .. }) if &**name == "Id"));
    assert!(matches!(&sig.signature, Value::Variant(Variant { name, .. }) if &**name == "Sr25519"));
    assert_eq!(sig.extensions.len(), 3);
    assert_eq!(sig.extensions[0].0, "CheckMortality".to_string());
    assert!(
        matches!(&sig.extensions[0].1, Value::Variant(Variant { name, .. }) if &**name == "Mortal21")
    );
    assert_eq!(sig.extensions[1].0, "CheckNonce".to_string());
    assert_eq!(sig.extensions[1].1, Value::Primitive(Primitive::U32(0)));
    assert_eq!(sig.extensions[2].0, "ChargeTransactionPayment".to_string());
    assert_eq!(sig.extensions[2].1, Value::Primitive(Primitive::U128(0)));
}

/// An unsigned extrinsic leaves no signature area.
#[test]
fn unsigned_extrinsic_has_no_signature() {
    let d = decoder();
    let ext_bytes = to_bytes("0x040000d2040000");
    let ext = d.decode_unwrapped_extrinsic(&ext_bytes).expect("can decode extrinsic");
    assert!(ext.signature.is_none());
}
