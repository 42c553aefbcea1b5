//! Loading metadata from its binary form: the magic prefix, the version
//! byte, and a small but complete payload.

use desub::extrinsic::Decoder;
use desub::error::MetadataError;
use desub::metadata::Metadata;
use desub::value::{Primitive, Value};

fn compact(v: u32) -> Vec<u8> {
    assert!(v < 64, "the blobs below only need the single-byte mode");
    vec![(v << 2) as u8]
}

fn string(s: &str) -> Vec<u8> {
    let mut out = compact(s.len() as u32);
    out.extend_from_slice(s.as_bytes());
    out
}

/// A blob holding one pallet (`Sys`, with one call taking a `u8`), a trivial
/// extrinsic descriptor, and a two-entry registry.
fn blob() -> Vec<u8> {
    let mut b: Vec<u8> = Vec::new();
    b.extend_from_slice(b"meta");
    b.push(14);
    // pallets: one record
    b.extend(compact(1));
    b.push(0); // pallet index
    b.extend(string("Sys"));
    b.push(1); // calls present
    b.extend(compact(1)); // calls type id
    // extrinsic: version, address, signature, no signed extensions
    b.push(4);
    b.extend(compact(0)); // address type id
    b.extend(compact(0)); // signature type id
    b.extend(compact(0)); // no signed extensions
    // registry: two entries
    b.extend(compact(2));
    // entry 0: u8
    b.extend(compact(0)); // id
    b.extend(compact(0)); // empty path
    b.push(5); // primitive
    b.push(3); // u8
    // entry 1: the calls variant
    b.extend(compact(1)); // id
    b.extend(compact(0)); // empty path
    b.push(1); // variant
    b.extend(compact(1)); // one variant
    b.extend(string("ping"));
    b.push(2); // discriminant
    b.extend(compact(1)); // one field
    b.push(0); // unnamed
    b.extend(compact(0)); // field type id: u8
    b
}

#[test]
fn metadata_from_bytes_decodes_extrinsics() {
    let m = Metadata::from_bytes(&blob()).expect("valid metadata blob");
    assert_eq!(m.extrinsic().version(), 4);
    let d = Decoder::with_metadata(m);
    let ext = d.decode_unwrapped_extrinsic(&[0x04, 0x00, 0x02, 0x07]).expect("ping(7)");
    assert_eq!(ext.pallet, "Sys".to_string());
    assert_eq!(ext.call, "ping".to_string());
    assert_eq!(ext.arguments, vec![Value::Primitive(Primitive::U8(7))]);
}

#[test]
fn metadata_bad_magic() {
    let mut b = blob();
    b[0] = b'x';
    assert_eq!(Metadata::from_bytes(&b), Err(MetadataError::BadMagic));
}

#[test]
fn metadata_unsupported_version() {
    let mut b = blob();
    b[4] = 13;
    assert_eq!(Metadata::from_bytes(&b), Err(MetadataError::UnsupportedVersion { got: 13 }));
}

#[test]
fn metadata_truncated() {
    assert_eq!(
        Metadata::from_bytes(b"met"),
        Err(MetadataError::UnexpectedEof { need: 4, have: 3, offset: 0 })
    );
    let b = blob();
    assert!(matches!(
        Metadata::from_bytes(&b[..b.len() - 1]),
        Err(MetadataError::UnexpectedEof { .. })
    ));
}

#[test]
fn metadata_calls_type_must_be_variant() {
    let mut b: Vec<u8> = Vec::new();
    b.extend_from_slice(b"meta");
    b.push(14);
    b.extend(compact(1));
    b.push(0);
    b.extend(string("Sys"));
    b.push(1);
    b.extend(compact(0)); // calls type id 0, which is a primitive below
    b.push(4);
    b.extend(compact(0));
    b.extend(compact(0));
    b.extend(compact(0));
    b.extend(compact(1));
    b.extend(compact(0));
    b.extend(compact(0));
    b.push(5);
    b.push(3);
    assert_eq!(
        Metadata::from_bytes(&b),
        Err(MetadataError::ExpectedVariantType { got: desub::error::TypeDefKind::Primitive })
    );
}

#[test]
fn metadata_missing_calls_type() {
    let mut b: Vec<u8> = Vec::new();
    b.extend_from_slice(b"meta");
    b.push(14);
    b.extend(compact(1));
    b.push(0);
    b.extend(string("Sys"));
    b.push(1);
    b.extend(compact(9)); // calls type id 9 is not in the registry
    b.push(4);
    b.extend(compact(0));
    b.extend(compact(0));
    b.extend(compact(0));
    b.extend(compact(0)); // empty registry
    assert_eq!(Metadata::from_bytes(&b), Err(MetadataError::TypeNotFound { id: 9 }));
}
