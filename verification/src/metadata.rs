//! Runtime metadata: the self-describing manifest a decode is driven by.
//!
//! A metadata blob begins with the four magic bytes `meta` and a version
//! byte; only version 14, the first self-describing layout, is accepted.
//! The payload holds, in order: the pallet records (index byte, name,
//! optional calls type id), the extrinsic descriptor (version byte, address
//! and signature type ids, and the signed-extension list), and the embedded
//! type registry.  Strings are compact-length-prefixed UTF-8; type ids and
//! list lengths are compact integers; option flags are one byte.
//!
//! Loading builds, for every pallet that exposes calls, the map from call
//! discriminant to the variant's *position* in the calls type — the
//! discriminants in metadata are not positions, and using them as such
//! silently mis-decodes.  [`spec_parse_metadata`] pins the whole reading
//! down, byte for byte.

use vstd::prelude::*;
use crate::error::{DecodeError, MetadataError, TypeDefKind};
use crate::registry::{PortableRegistry, PortableType, TypeDef, TypeId, Field, VariantDef,
    PrimitiveKind, RegistryModel, TypeDefModel, FieldModel, VariantDefModel, PortableTypeModel,
    registry_model, portable_type_model, type_def_model, fields_model, field_model,
    variants_model, variant_def_model, ids_model, strings_model, reg_resolve};
use crate::cursor::{ByteCursor, spec_read_byte, spec_read_bytes};
use crate::compact::spec_compact_u32;
use vstd::utf8::{valid_utf8, decode_utf8};

verus! {

/// One signed extension: its name and the type ids of its transmitted and
/// additional-signed payloads.
#[derive(Debug, Clone, PartialEq)]
pub struct SignedExtensionMetadata {
    pub identifier: String,
    pub ty: TypeId,
    pub additional_signed: TypeId,
}

/// Where a pallet's calls live: the calls type id, and the map from call
/// discriminant to the variant's position in that type.
#[derive(Debug, PartialEq)]
pub struct MetadataCalls {
    pub calls_type_id: TypeId,
    pub call_variant_indexes: Vec<(u8, usize)>,
}

/// One pallet: its name and, if it exposes calls, their descriptor.
#[derive(Debug, PartialEq)]
pub struct MetadataPallet {
    pub name: String,
    pub calls: Option<MetadataCalls>,
}

/// The extrinsic envelope the metadata describes.
#[derive(Debug, Clone, PartialEq)]
pub struct MetadataExtrinsic {
    pub version: u8,
    pub address_ty: TypeId,
    pub signature_ty: TypeId,
    pub signed_extensions: Vec<SignedExtensionMetadata>,
}

/// A representation of the runtime metadata obtained from a node, sufficient
/// to decode extrinsics compatible with that node.
#[derive(Debug, PartialEq)]
pub struct Metadata {
    pub extrinsic: MetadataExtrinsic,
    pub pallets: Vec<(u8, MetadataPallet)>,
    pub types: PortableRegistry,
}

/// Ghost mirror of [`SignedExtensionMetadata`].
pub struct SignedExtensionModel {
    pub identifier: Seq<char>,
    pub ty: u32,
    pub additional_signed: u32,
}

/// Ghost mirror of [`MetadataCalls`].
pub struct CallsModel {
    pub calls_type_id: u32,
    pub call_variant_indexes: Seq<(u8, usize)>,
}

/// Ghost mirror of [`MetadataPallet`].
pub struct PalletModel {
    pub name: Seq<char>,
    pub calls: Option<CallsModel>,
}

/// Ghost mirror of [`MetadataExtrinsic`].
pub struct ExtrinsicModel {
    pub version: u8,
    pub address_ty: u32,
    pub signature_ty: u32,
    pub signed_extensions: Seq<SignedExtensionModel>,
}

/// Ghost mirror of [`Metadata`].
pub struct MetadataModel {
    pub extrinsic: ExtrinsicModel,
    pub pallets: Seq<(u8, PalletModel)>,
    pub types: RegistryModel,
}

/// The mirror of a signed extension.
pub open spec fn sigext_model(s: SignedExtensionMetadata) -> SignedExtensionModel {
    SignedExtensionModel {
        identifier: s.identifier@,
        ty: s.ty.spec_id(),
        additional_signed: s.additional_signed.spec_id(),
    }
}

/// The mirror of a signed-extension list, elementwise.
pub open spec fn sigexts_model(s: Seq<SignedExtensionMetadata>) -> Seq<SignedExtensionModel> {
    s.map(|i: int, x: SignedExtensionMetadata| sigext_model(x))
}

/// The mirror of a calls descriptor.
pub open spec fn calls_model(c: MetadataCalls) -> CallsModel {
    CallsModel {
        calls_type_id: c.calls_type_id.spec_id(),
        call_variant_indexes: c.call_variant_indexes@,
    }
}

/// The mirror of a pallet.
pub open spec fn pallet_model(p: MetadataPallet) -> PalletModel {
    PalletModel {
        name: p.name@,
        calls: match p.calls {
            Option::Some(c) => Option::Some(calls_model(c)),
            Option::None => Option::None,
        },
    }
}

/// The mirror of the pallet table, elementwise.
pub open spec fn pallets_model(s: Seq<(u8, MetadataPallet)>) -> Seq<(u8, PalletModel)> {
    s.map(|i: int, p: (u8, MetadataPallet)| (p.0, pallet_model(p.1)))
}

/// The mirror of the extrinsic descriptor.
pub open spec fn extrinsic_model(e: MetadataExtrinsic) -> ExtrinsicModel {
    ExtrinsicModel {
        version: e.version,
        address_ty: e.address_ty.spec_id(),
        signature_ty: e.signature_ty.spec_id(),
        signed_extensions: sigexts_model(e.signed_extensions@),
    }
}

/// The mirror of a whole metadata value.
pub open spec fn metadata_model(m: Metadata) -> MetadataModel {
    MetadataModel {
        extrinsic: extrinsic_model(m.extrinsic),
        pallets: pallets_model(m.pallets@),
        types: registry_model(m.types),
    }
}

/// The cursor-level error a metadata read surfaces as a loader error.
pub open spec fn spec_md_err(e: DecodeError) -> MetadataError {
    match e {
        DecodeError::UnexpectedEof { need, have, offset } => MetadataError::UnexpectedEof {
            need,
            have,
            offset,
        },
        DecodeError::CompactOverflow { declared_width, value_bytes } => {
            MetadataError::CompactOverflow { declared_width, value_bytes }
        },
        DecodeError::InvalidUtf8 { offset } => MetadataError::InvalidUtf8 { offset },
        _ => MetadataError::BadMagic,
    }
}

/// A compact length or id, as the loader reads it.
pub open spec fn spec_md_compact_u32(data: Seq<u8>, pos: int) -> Result<(u32, int), MetadataError> {
    match spec_compact_u32(data, pos) {
        Result::Ok((v, p)) => Result::Ok((v, p)),
        Result::Err(e) => Result::Err(spec_md_err(e)),
    }
}

/// A byte, as the loader reads it.
pub open spec fn spec_md_byte(data: Seq<u8>, pos: int) -> Result<(u8, int), MetadataError> {
    match spec_read_byte(data, pos) {
        Result::Ok((b, p)) => Result::Ok((b, p)),
        Result::Err(e) => Result::Err(spec_md_err(e)),
    }
}

/// A compact-length-prefixed UTF-8 string.
pub open spec fn spec_parse_str(data: Seq<u8>, pos: int) -> Result<(Seq<char>, int), MetadataError> {
    match spec_md_compact_u32(data, pos) {
        Result::Err(e) => Result::Err(e),
        Result::Ok((n, p1)) => match spec_read_bytes(data, p1, n as int) {
            Result::Err(e) => Result::Err(spec_md_err(e)),
            Result::Ok((bs, p2)) => if valid_utf8(bs) {
                Result::Ok((decode_utf8(bs), p2))
            } else {
                Result::Err(MetadataError::InvalidUtf8 { offset: p1 as u64 })
            },
        },
    }
}

/// An optional string: a one-byte flag, then the string when present.
pub open spec fn spec_parse_opt_str(data: Seq<u8>, pos: int) -> Result<
    (Option<Seq<char>>, int),
    MetadataError,
> {
    match spec_md_byte(data, pos) {
        Result::Err(e) => Result::Err(e),
        Result::Ok((b, p1)) => if b == 0 {
            Result::Ok((Option::None, p1))
        } else if b == 1 {
            match spec_parse_str(data, p1) {
                Result::Err(e) => Result::Err(e),
                Result::Ok((s, p2)) => Result::Ok((Option::Some(s), p2)),
            }
        } else {
            Result::Err(MetadataError::UnsupportedTypeDefinition { tag: b })
        },
    }
}

/// One field: optional name, then the field's type id.
pub open spec fn spec_parse_field(data: Seq<u8>, pos: int) -> Result<
    (FieldModel, int),
    MetadataError,
> {
    match spec_parse_opt_str(data, pos) {
        Result::Err(e) => Result::Err(e),
        Result::Ok((name, p1)) => match spec_md_compact_u32(data, p1) {
            Result::Err(e) => Result::Err(e),
            Result::Ok((ty, p2)) => Result::Ok((FieldModel { name, ty }, p2)),
        },
    }
}

/// `n` fields in order.
pub open spec fn spec_parse_fields(data: Seq<u8>, pos: int, n: int) -> Result<
    (Seq<FieldModel>, int),
    MetadataError,
>
    decreases n,
{
    if n <= 0 {
        Result::Ok((Seq::empty(), pos))
    } else {
        match spec_parse_field(data, pos) {
            Result::Err(e) => Result::Err(e),
            Result::Ok((f, p1)) => match spec_parse_fields(data, p1, n - 1) {
                Result::Err(e) => Result::Err(e),
                Result::Ok((fs, p2)) => Result::Ok((seq![f] + fs, p2)),
            },
        }
    }
}

/// One variant: name, discriminant byte, then its fields.
pub open spec fn spec_parse_variant(data: Seq<u8>, pos: int) -> Result<
    (VariantDefModel, int),
    MetadataError,
> {
    match spec_parse_str(data, pos) {
        Result::Err(e) => Result::Err(e),
        Result::Ok((name, p1)) => match spec_md_byte(data, p1) {
            Result::Err(e) => Result::Err(e),
            Result::Ok((index, p2)) => match spec_md_compact_u32(data, p2) {
                Result::Err(e) => Result::Err(e),
                Result::Ok((k, p3)) => match spec_parse_fields(data, p3, k as int) {
                    Result::Err(e) => Result::Err(e),
                    Result::Ok((fields, p4)) => Result::Ok(
                        (VariantDefModel { name, index, fields }, p4),
                    ),
                },
            },
        },
    }
}

/// `n` variants in order.
pub open spec fn spec_parse_variants(data: Seq<u8>, pos: int, n: int) -> Result<
    (Seq<VariantDefModel>, int),
    MetadataError,
>
    decreases n,
{
    if n <= 0 {
        Result::Ok((Seq::empty(), pos))
    } else {
        match spec_parse_variant(data, pos) {
            Result::Err(e) => Result::Err(e),
            Result::Ok((v, p1)) => match spec_parse_variants(data, p1, n - 1) {
                Result::Err(e) => Result::Err(e),
                Result::Ok((vs, p2)) => Result::Ok((seq![v] + vs, p2)),
            },
        }
    }
}

/// `n` compact type ids in order.
pub open spec fn spec_parse_id_list(data: Seq<u8>, pos: int, n: int) -> Result<
    (Seq<u32>, int),
    MetadataError,
>
    decreases n,
{
    if n <= 0 {
        Result::Ok((Seq::empty(), pos))
    } else {
        match spec_md_compact_u32(data, pos) {
            Result::Err(e) => Result::Err(e),
            Result::Ok((id, p1)) => match spec_parse_id_list(data, p1, n - 1) {
                Result::Err(e) => Result::Err(e),
                Result::Ok((ids, p2)) => Result::Ok((seq![id] + ids, p2)),
            },
        }
    }
}

/// The primitive kind a tag byte denotes, if any.
pub open spec fn spec_primitive_kind(b: u8) -> Option<PrimitiveKind> {
    if b == 0 {
        Option::Some(PrimitiveKind::Bool)
    } else if b == 1 {
        Option::Some(PrimitiveKind::Char)
    } else if b == 2 {
        Option::Some(PrimitiveKind::Str)
    } else if b == 3 {
        Option::Some(PrimitiveKind::U8)
    } else if b == 4 {
        Option::Some(PrimitiveKind::U16)
    } else if b == 5 {
        Option::Some(PrimitiveKind::U32)
    } else if b == 6 {
        Option::Some(PrimitiveKind::U64)
    } else if b == 7 {
        Option::Some(PrimitiveKind::U128)
    } else if b == 8 {
        Option::Some(PrimitiveKind::U256)
    } else if b == 9 {
        Option::Some(PrimitiveKind::I8)
    } else if b == 10 {
        Option::Some(PrimitiveKind::I16)
    } else if b == 11 {
        Option::Some(PrimitiveKind::I32)
    } else if b == 12 {
        Option::Some(PrimitiveKind::I64)
    } else if b == 13 {
        Option::Some(PrimitiveKind::I128)
    } else if b == 14 {
        Option::Some(PrimitiveKind::I256)
    } else {
        Option::None
    }
}

/// One type definition: a tag byte, then the tag's payload.
pub open spec fn spec_parse_typedef(data: Seq<u8>, pos: int) -> Result<
    (TypeDefModel, int),
    MetadataError,
> {
    match spec_md_byte(data, pos) {
        Result::Err(e) => Result::Err(e),
        Result::Ok((tag, p1)) => {
            if tag == 0 {
                match spec_md_compact_u32(data, p1) {
                    Result::Err(e) => Result::Err(e),
                    Result::Ok((k, p2)) => match spec_parse_fields(data, p2, k as int) {
                        Result::Err(e) => Result::Err(e),
                        Result::Ok((fields, p3)) => Result::Ok(
                            (TypeDefModel::Composite { fields }, p3),
                        ),
                    },
                }
            } else if tag == 1 {
                match spec_md_compact_u32(data, p1) {
                    Result::Err(e) => Result::Err(e),
                    Result::Ok((k, p2)) => match spec_parse_variants(data, p2, k as int) {
                        Result::Err(e) => Result::Err(e),
                        Result::Ok((variants, p3)) => Result::Ok(
                            (TypeDefModel::Variant { variants }, p3),
                        ),
                    },
                }
            } else if tag == 2 {
                match spec_md_compact_u32(data, p1) {
                    Result::Err(e) => Result::Err(e),
                    Result::Ok((element, p2)) => Result::Ok(
                        (TypeDefModel::Sequence { element }, p2),
                    ),
                }
            } else if tag == 3 {
                match spec_read_bytes(data, p1, 4) {
                    Result::Err(e) => Result::Err(spec_md_err(e)),
                    Result::Ok((bs, p2)) => {
                        let len = (bs[0] + 256 * bs[1] + 65536 * bs[2] + 16777216 * bs[3]) as u32;
                        match spec_md_compact_u32(data, p2) {
                            Result::Err(e) => Result::Err(e),
                            Result::Ok((element, p3)) => Result::Ok(
                                (TypeDefModel::Array { len, element }, p3),
                            ),
                        }
                    },
                }
            } else if tag == 4 {
                match spec_md_compact_u32(data, p1) {
                    Result::Err(e) => Result::Err(e),
                    Result::Ok((k, p2)) => match spec_parse_id_list(data, p2, k as int) {
                        Result::Err(e) => Result::Err(e),
                        Result::Ok((elements, p3)) => Result::Ok(
                            (TypeDefModel::Tuple { elements }, p3),
                        ),
                    },
                }
            } else if tag == 5 {
                match spec_md_byte(data, p1) {
                    Result::Err(e) => Result::Err(e),
                    Result::Ok((pb, p2)) => match spec_primitive_kind(pb) {
                        Option::Some(kind) => Result::Ok((TypeDefModel::Primitive { kind }, p2)),
                        Option::None => Result::Err(
                            MetadataError::UnsupportedTypeDefinition { tag: pb },
                        ),
                    },
                }
            } else if tag == 6 {
                match spec_md_compact_u32(data, p1) {
                    Result::Err(e) => Result::Err(e),
                    Result::Ok((inner, p2)) => Result::Ok((TypeDefModel::Compact { inner }, p2)),
                }
            } else if tag == 7 {
                match spec_md_compact_u32(data, p1) {
                    Result::Err(e) => Result::Err(e),
                    Result::Ok((store, p2)) => match spec_md_compact_u32(data, p2) {
                        Result::Err(e) => Result::Err(e),
                        Result::Ok((order, p3)) => Result::Ok(
                            (TypeDefModel::BitSequence { store, order }, p3),
                        ),
                    },
                }
            } else {
                Result::Err(MetadataError::UnsupportedTypeDefinition { tag })
            }
        },
    }
}

/// `n` path segments in order.
pub open spec fn spec_parse_path(data: Seq<u8>, pos: int, n: int) -> Result<
    (Seq<Seq<char>>, int),
    MetadataError,
>
    decreases n,
{
    if n <= 0 {
        Result::Ok((Seq::empty(), pos))
    } else {
        match spec_parse_str(data, pos) {
            Result::Err(e) => Result::Err(e),
            Result::Ok((s, p1)) => match spec_parse_path(data, p1, n - 1) {
                Result::Err(e) => Result::Err(e),
                Result::Ok((ss, p2)) => Result::Ok((seq![s] + ss, p2)),
            },
        }
    }
}

/// One registry entry: id, path, definition.
pub open spec fn spec_parse_entry(data: Seq<u8>, pos: int) -> Result<
    (PortableTypeModel, int),
    MetadataError,
> {
    match spec_md_compact_u32(data, pos) {
        Result::Err(e) => Result::Err(e),
        Result::Ok((id, p1)) => match spec_md_compact_u32(data, p1) {
            Result::Err(e) => Result::Err(e),
            Result::Ok((k, p2)) => match spec_parse_path(data, p2, k as int) {
                Result::Err(e) => Result::Err(e),
                Result::Ok((path, p3)) => match spec_parse_typedef(data, p3) {
                    Result::Err(e) => Result::Err(e),
                    Result::Ok((def, p4)) => Result::Ok(
                        (PortableTypeModel { id, path, def }, p4),
                    ),
                },
            },
        },
    }
}

/// `n` registry entries in order.
pub open spec fn spec_parse_entries(data: Seq<u8>, pos: int, n: int) -> Result<
    (Seq<PortableTypeModel>, int),
    MetadataError,
>
    decreases n,
{
    if n <= 0 {
        Result::Ok((Seq::empty(), pos))
    } else {
        match spec_parse_entry(data, pos) {
            Result::Err(e) => Result::Err(e),
            Result::Ok((t, p1)) => match spec_parse_entries(data, p1, n - 1) {
                Result::Err(e) => Result::Err(e),
                Result::Ok((ts, p2)) => Result::Ok((seq![t] + ts, p2)),
            },
        }
    }
}

/// One pallet record: index byte, name, optional calls type id.
pub open spec fn spec_parse_pallet(data: Seq<u8>, pos: int) -> Result<
    ((u8, Seq<char>, Option<u32>), int),
    MetadataError,
> {
    match spec_md_byte(data, pos) {
        Result::Err(e) => Result::Err(e),
        Result::Ok((index, p1)) => match spec_parse_str(data, p1) {
            Result::Err(e) => Result::Err(e),
            Result::Ok((name, p2)) => match spec_md_byte(data, p2) {
                Result::Err(e) => Result::Err(e),
                Result::Ok((flag, p3)) => if flag == 0 {
                    Result::Ok(((index, name, Option::None), p3))
                } else if flag == 1 {
                    match spec_md_compact_u32(data, p3) {
                        Result::Err(e) => Result::Err(e),
                        Result::Ok((ty, p4)) => Result::Ok(
                            ((index, name, Option::Some(ty)), p4),
                        ),
                    }
                } else {
                    Result::Err(MetadataError::UnsupportedTypeDefinition { tag: flag })
                },
            },
        },
    }
}

/// `n` pallet records in order.
pub open spec fn spec_parse_pallet_list(data: Seq<u8>, pos: int, n: int) -> Result<
    (Seq<(u8, Seq<char>, Option<u32>)>, int),
    MetadataError,
>
    decreases n,
{
    if n <= 0 {
        Result::Ok((Seq::empty(), pos))
    } else {
        match spec_parse_pallet(data, pos) {
            Result::Err(e) => Result::Err(e),
            Result::Ok((p, p1)) => match spec_parse_pallet_list(data, p1, n - 1) {
                Result::Err(e) => Result::Err(e),
                Result::Ok((ps, p2)) => Result::Ok((seq![p] + ps, p2)),
            },
        }
    }
}

/// One signed-extension record: name, payload type id, additional-signed
/// type id.
pub open spec fn spec_parse_sigext(data: Seq<u8>, pos: int) -> Result<
    (SignedExtensionModel, int),
    MetadataError,
> {
    match spec_parse_str(data, pos) {
        Result::Err(e) => Result::Err(e),
        Result::Ok((identifier, p1)) => match spec_md_compact_u32(data, p1) {
            Result::Err(e) => Result::Err(e),
            Result::Ok((ty, p2)) => match spec_md_compact_u32(data, p2) {
                Result::Err(e) => Result::Err(e),
                Result::Ok((additional_signed, p3)) => Result::Ok(
                    (SignedExtensionModel { identifier, ty, additional_signed }, p3),
                ),
            },
        },
    }
}

/// `n` signed-extension records in order.
pub open spec fn spec_parse_sigexts(data: Seq<u8>, pos: int, n: int) -> Result<
    (Seq<SignedExtensionModel>, int),
    MetadataError,
>
    decreases n,
{
    if n <= 0 {
        Result::Ok((Seq::empty(), pos))
    } else {
        match spec_parse_sigext(data, pos) {
            Result::Err(e) => Result::Err(e),
            Result::Ok((s, p1)) => match spec_parse_sigexts(data, p1, n - 1) {
                Result::Err(e) => Result::Err(e),
                Result::Ok((ss, p2)) => Result::Ok((seq![s] + ss, p2)),
            },
        }
    }
}

/// The calls descriptor a calls type id yields: the type must resolve to a
/// variant definition, and each variant's discriminant maps to its position.
pub open spec fn spec_build_calls(reg: RegistryModel, calls_ty: u32) -> Result<
    CallsModel,
    MetadataError,
> {
    match reg_resolve(reg, calls_ty) {
        Option::None => Result::Err(MetadataError::TypeNotFound { id: calls_ty }),
        Option::Some(entry) => match entry.def {
            TypeDefModel::Variant { variants } => Result::Ok(
                CallsModel {
                    calls_type_id: calls_ty,
                    call_variant_indexes: Seq::new(
                        variants.len(),
                        |k: int| (variants[k].index, k as usize),
                    ),
                },
            ),
            _ => Result::Err(MetadataError::ExpectedVariantType { got: entry.def.kind() }),
        },
    }
}

/// The pallet table the parsed records yield.
pub open spec fn spec_build_pallets(
    reg: RegistryModel,
    parsed: Seq<(u8, Seq<char>, Option<u32>)>,
) -> Result<Seq<(u8, PalletModel)>, MetadataError>
    decreases parsed.len(),
{
    if parsed.len() == 0 {
        Result::Ok(Seq::empty())
    } else {
        let head = parsed[0];
        let calls = match head.2 {
            Option::None => Result::<Option<CallsModel>, MetadataError>::Ok(Option::None),
            Option::Some(ty) => match spec_build_calls(reg, ty) {
                Result::Ok(c) => Result::Ok(Option::Some(c)),
                Result::Err(e) => Result::Err(e),
            },
        };
        match calls {
            Result::Err(e) => Result::Err(e),
            Result::Ok(c) => match spec_build_pallets(
                reg,
                parsed.subrange(1, parsed.len() as int),
            ) {
                Result::Err(e) => Result::Err(e),
                Result::Ok(rest) => Result::Ok(
                    seq![(head.0, PalletModel { name: head.1, calls: c })] + rest,
                ),
            },
        }
    }
}

/// The whole reading of a metadata blob into a metadata value: magic,
/// version, pallets, extrinsic descriptor, registry, then the calls maps.
pub open spec fn spec_parse_metadata(data: Seq<u8>) -> Result<MetadataModel, MetadataError> {
    if data.len() < 4 {
        Result::Err(
            MetadataError::UnexpectedEof { need: 4, have: data.len() as u64, offset: 0 },
        )
    } else if !(data[0] == 0x6d && data[1] == 0x65 && data[2] == 0x74 && data[3] == 0x61) {
        Result::Err(MetadataError::BadMagic)
    } else {
        match spec_md_byte(data, 4) {
            Result::Err(e) => Result::Err(e),
            Result::Ok((version, p0)) => if version != 14 {
                Result::Err(MetadataError::UnsupportedVersion { got: version })
            } else {
                match spec_md_compact_u32(data, p0) {
                    Result::Err(e) => Result::Err(e),
                    Result::Ok((np, p1)) => match spec_parse_pallet_list(data, p1, np as int) {
                        Result::Err(e) => Result::Err(e),
                        Result::Ok((precs, p2)) => match spec_md_byte(data, p2) {
                            Result::Err(e) => Result::Err(e),
                            Result::Ok((xver, p3)) => match spec_md_compact_u32(data, p3) {
                                Result::Err(e) => Result::Err(e),
                                Result::Ok((addr, p4)) => match spec_md_compact_u32(data, p4) {
                                    Result::Err(e) => Result::Err(e),
                                    Result::Ok((sig, p5)) => match spec_md_compact_u32(
                                        data,
                                        p5,
                                    ) {
                                        Result::Err(e) => Result::Err(e),
                                        Result::Ok((ns, p6)) => match spec_parse_sigexts(
                                            data,
                                            p6,
                                            ns as int,
                                        ) {
                                            Result::Err(e) => Result::Err(e),
                                            Result::Ok((exts, p7)) => match spec_md_compact_u32(
                                                data,
                                                p7,
                                            ) {
                                                Result::Err(e) => Result::Err(e),
                                                Result::Ok((nt, p8)) => match spec_parse_entries(
                                                    data,
                                                    p8,
                                                    nt as int,
                                                ) {
                                                    Result::Err(e) => Result::Err(e),
                                                    Result::Ok(
                                                        (types, p9),
                                                    ) => match spec_build_pallets(types, precs) {
                                                        Result::Err(e) => Result::Err(e),
                                                        Result::Ok(pallets) => Result::Ok(
                                                            MetadataModel {
                                                                extrinsic: ExtrinsicModel {
                                                                    version: xver,
                                                                    address_ty: addr,
                                                                    signature_ty: sig,
                                                                    signed_extensions: exts,
                                                                },
                                                                pallets,
                                                                types,
                                                            },
                                                        ),
                                                    },
                                                },
                                            },
                                        },
                                    },
                                },
                            },
                        },
                    },
                }
            },
        }
    }
}

/// Map a cursor-level error to the loader's error type.
fn md_err(e: DecodeError) -> (r: MetadataError)
    ensures
        r == spec_md_err(e),
{
    match e {
        DecodeError::UnexpectedEof { need, have, offset } => MetadataError::UnexpectedEof {
            need,
            have,
            offset,
        },
        DecodeError::CompactOverflow { declared_width, value_bytes } => {
            MetadataError::CompactOverflow { declared_width, value_bytes }
        },
        DecodeError::InvalidUtf8 { offset } => MetadataError::InvalidUtf8 { offset },
        _ => MetadataError::BadMagic,
    }
}

/// Read a compact integer that must fit 32 bits.
fn md_compact_u32(cursor: &mut ByteCursor) -> (r: Result<u32, MetadataError>)
    requires
        old(cursor).wf(),
    ensures
        final(cursor).wf(),
        final(cursor).spec_data() == old(cursor).spec_data(),
        match spec_md_compact_u32(old(cursor).spec_data(), old(cursor).spec_pos()) {
            Result::Ok((v, p)) => r == Result::<u32, MetadataError>::Ok(v) && final(cursor).spec_pos() == p,
            Result::Err(e) => r == Result::<u32, MetadataError>::Err(e),
        },
{
    match cursor.read_compact_u32() {
        Result::Ok(v) => Result::Ok(v),
        Result::Err(e) => Result::Err(md_err(e)),
    }
}

/// Read one byte.
fn md_byte(cursor: &mut ByteCursor) -> (r: Result<u8, MetadataError>)
    requires
        old(cursor).wf(),
    ensures
        final(cursor).wf(),
        final(cursor).spec_data() == old(cursor).spec_data(),
        match spec_md_byte(old(cursor).spec_data(), old(cursor).spec_pos()) {
            Result::Ok((v, p)) => r == Result::<u8, MetadataError>::Ok(v) && final(cursor).spec_pos() == p,
            Result::Err(e) => r == Result::<u8, MetadataError>::Err(e),
        },
{
    match cursor.read_byte() {
        Result::Ok(v) => Result::Ok(v),
        Result::Err(e) => Result::Err(md_err(e)),
    }
}

/// Read a compact-length-prefixed UTF-8 string.
fn read_str(cursor: &mut ByteCursor) -> (r: Result<String, MetadataError>)
    requires
        old(cursor).wf(),
    ensures
        final(cursor).wf(),
        final(cursor).spec_data() == old(cursor).spec_data(),
        match spec_parse_str(old(cursor).spec_data(), old(cursor).spec_pos()) {
            Result::Ok((s, p)) => r matches Result::Ok(x) && x@ == s && final(cursor).spec_pos()
                == p,
            Result::Err(e) => r == Result::<String, MetadataError>::Err(e),
        },
{
    let n = match md_compact_u32(cursor) {
        Result::Ok(n) => n,
        Result::Err(e) => { return Result::Err(e); },
    };
    let strpos: usize = cursor.offset();
    let bs = match cursor.read_fixed(n as usize) {
        Result::Ok(bs) => bs,
        Result::Err(e) => { return Result::Err(md_err(e)); },
    };
    match crate::decoder::string_from_utf8(bs) {
        Option::Some(s) => Result::Ok(s),
        Option::None => Result::Err(MetadataError::InvalidUtf8 { offset: strpos as u64 }),
    }
}

/// Read an optional string: a one-byte flag, then the string when present.
fn read_opt_str(cursor: &mut ByteCursor) -> (r: Result<Option<String>, MetadataError>)
    requires
        old(cursor).wf(),
    ensures
        final(cursor).wf(),
        final(cursor).spec_data() == old(cursor).spec_data(),
        match spec_parse_opt_str(old(cursor).spec_data(), old(cursor).spec_pos()) {
            Result::Ok((s, p)) => r matches Result::Ok(x) && (match x {
                Option::Some(n) => s matches Option::Some(sm) && n@ == sm,
                Option::None => s is None,
            }) && final(cursor).spec_pos() == p,
            Result::Err(e) => r == Result::<Option<String>, MetadataError>::Err(e),
        },
{
    let b = match md_byte(cursor) {
        Result::Ok(b) => b,
        Result::Err(e) => { return Result::Err(e); },
    };
    if b == 0 {
        Result::Ok(Option::None)
    } else if b == 1 {
        match read_str(cursor) {
            Result::Ok(s) => Result::Ok(Option::Some(s)),
            Result::Err(e) => Result::Err(e),
        }
    } else {
        Result::Err(MetadataError::UnsupportedTypeDefinition { tag: b })
    }
}

/// Read one field.
fn read_field(cursor: &mut ByteCursor) -> (r: Result<Field, MetadataError>)
    requires
        old(cursor).wf(),
    ensures
        final(cursor).wf(),
        final(cursor).spec_data() == old(cursor).spec_data(),
        match spec_parse_field(old(cursor).spec_data(), old(cursor).spec_pos()) {
            Result::Ok((f, p)) => r matches Result::Ok(x) && field_model(x) == f && final(cursor).spec_pos() == p,
            Result::Err(e) => r == Result::<Field, MetadataError>::Err(e),
        },
{
    let name = match read_opt_str(cursor) {
        Result::Ok(n) => n,
        Result::Err(e) => { return Result::Err(e); },
    };
    let ty = match md_compact_u32(cursor) {
        Result::Ok(t) => t,
        Result::Err(e) => { return Result::Err(e); },
    };
    Result::Ok(Field { name, ty: TypeId::from_u32(ty) })
}

/// Read `n - i` more fields, appending each to `out`.
fn read_fields_into(cursor: &mut ByteCursor, n: u32, i: u32, out: &mut Vec<Field>) -> (r: Result<
    (),
    MetadataError,
>)
    requires
        old(cursor).wf(),
        i <= n,
    ensures
        final(cursor).wf(),
        final(cursor).spec_data() == old(cursor).spec_data(),
        match spec_parse_fields(
            old(cursor).spec_data(),
            old(cursor).spec_pos(),
            n as int - i as int,
        ) {
            Result::Ok((fs, p)) => r is Ok && fields_model(final(out)@) == fields_model(
                old(out)@,
            ) + fs && final(out)@.len() == old(out)@.len() + fs.len() && final(cursor).spec_pos() == p,
            Result::Err(e) => r == Result::<(), MetadataError>::Err(e),
        },
    decreases n - i,
{
    let ghost out0 = out@;
    if i >= n {
        proof {
            assert(fields_model(out0) + Seq::<FieldModel>::empty() =~= fields_model(out0));
        }
        return Result::Ok(());
    }
    let f = match read_field(cursor) {
        Result::Ok(f) => f,
        Result::Err(e) => { return Result::Err(e); },
    };
    let ghost fm = field_model(f);
    out.push(f);
    proof {
        assert(fields_model(out@) =~= fields_model(out0) + seq![fm]);
    }
    let ghost p1 = cursor.spec_pos();
    match read_fields_into(cursor, n, i + 1, out) {
        Result::Ok(u) => u,
        Result::Err(e) => { return Result::Err(e); },
    }
    proof {
        let data = old(cursor).spec_data();
        match spec_parse_fields(data, p1, n as int - i as int - 1) {
            Result::Ok((fs2, p2)) => {
                assert(fields_model(out@) == (fields_model(out0) + seq![fm]) + fs2);
                assert((fields_model(out0) + seq![fm]) + fs2 =~= fields_model(out0) + (seq![fm]
                    + fs2));
            },
            Result::Err(e) => {
                // impossible: the call above returned successfully
                assert(false);
            },
        }
    }
    Result::Ok(())
}

/// Read a compact field count, then that many fields.
fn read_fields(cursor: &mut ByteCursor) -> (r: Result<Vec<Field>, MetadataError>)
    requires
        old(cursor).wf(),
    ensures
        final(cursor).wf(),
        final(cursor).spec_data() == old(cursor).spec_data(),
        match spec_md_compact_u32(old(cursor).spec_data(), old(cursor).spec_pos()) {
            Result::Ok((k, p1)) => match spec_parse_fields(old(cursor).spec_data(), p1, k as int) {
                Result::Ok((fs, p)) => r matches Result::Ok(v) && fields_model(v@) == fs
                    && final(cursor).spec_pos() == p,
                Result::Err(e) => r == Result::<Vec<Field>, MetadataError>::Err(e),
            },
            Result::Err(e) => r == Result::<Vec<Field>, MetadataError>::Err(e),
        },
{
    let k = match md_compact_u32(cursor) {
        Result::Ok(k) => k,
        Result::Err(e) => { return Result::Err(e); },
    };
    let mut out: Vec<Field> = Vec::new();
    proof {
        assert(fields_model(Seq::<Field>::empty()) =~= Seq::<FieldModel>::empty());
    }
    match read_fields_into(cursor, k, 0, &mut out) {
        Result::Ok(u) => u,
        Result::Err(e) => { return Result::Err(e); },
    }
    Result::Ok(out)
}

/// Read one variant definition.
fn read_variant(cursor: &mut ByteCursor) -> (r: Result<VariantDef, MetadataError>)
    requires
        old(cursor).wf(),
    ensures
        final(cursor).wf(),
        final(cursor).spec_data() == old(cursor).spec_data(),
        match spec_parse_variant(old(cursor).spec_data(), old(cursor).spec_pos()) {
            Result::Ok((v, p)) => r matches Result::Ok(x) && variant_def_model(x) == v && final(cursor).spec_pos() == p,
            Result::Err(e) => r == Result::<VariantDef, MetadataError>::Err(e),
        },
{
    let name = match read_str(cursor) {
        Result::Ok(n) => n,
        Result::Err(e) => { return Result::Err(e); },
    };
    let index = match md_byte(cursor) {
        Result::Ok(b) => b,
        Result::Err(e) => { return Result::Err(e); },
    };
    let fields = match read_fields(cursor) {
        Result::Ok(f) => f,
        Result::Err(e) => { return Result::Err(e); },
    };
    Result::Ok(VariantDef { name, index, fields })
}

/// Read `n - i` more variants, appending each to `out`.
fn read_variants_into(cursor: &mut ByteCursor, n: u32, i: u32, out: &mut Vec<VariantDef>) -> (r:
    Result<(), MetadataError>)
    requires
        old(cursor).wf(),
        i <= n,
    ensures
        final(cursor).wf(),
        final(cursor).spec_data() == old(cursor).spec_data(),
        match spec_parse_variants(
            old(cursor).spec_data(),
            old(cursor).spec_pos(),
            n as int - i as int,
        ) {
            Result::Ok((vs, p)) => r is Ok && variants_model(final(out)@) == variants_model(
                old(out)@,
            ) + vs && final(out)@.len() == old(out)@.len() + vs.len() && final(cursor).spec_pos() == p,
            Result::Err(e) => r == Result::<(), MetadataError>::Err(e),
        },
    decreases n - i,
{
    let ghost out0 = out@;
    if i >= n {
        proof {
            assert(variants_model(out0) + Seq::<VariantDefModel>::empty() =~= variants_model(
                out0,
            ));
        }
        return Result::Ok(());
    }
    let v = match read_variant(cursor) {
        Result::Ok(v) => v,
        Result::Err(e) => { return Result::Err(e); },
    };
    let ghost vm = variant_def_model(v);
    out.push(v);
    proof {
        assert(variants_model(out@) =~= variants_model(out0) + seq![vm]);
    }
    let ghost p1 = cursor.spec_pos();
    match read_variants_into(cursor, n, i + 1, out) {
        Result::Ok(u) => u,
        Result::Err(e) => { return Result::Err(e); },
    }
    proof {
        let data = old(cursor).spec_data();
        match spec_parse_variants(data, p1, n as int - i as int - 1) {
            Result::Ok((vs2, p2)) => {
                assert(variants_model(out@) == (variants_model(out0) + seq![vm]) + vs2);
                assert((variants_model(out0) + seq![vm]) + vs2 =~= variants_model(out0) + (
                seq![vm] + vs2));
            },
            Result::Err(e) => {
                // impossible: the call above returned successfully
                assert(false);
            },
        }
    }
    Result::Ok(())
}

/// Read `n - i` more compact type ids, appending each to `out`.
fn read_ids_into(cursor: &mut ByteCursor, n: u32, i: u32, out: &mut Vec<TypeId>) -> (r: Result<
    (),
    MetadataError,
>)
    requires
        old(cursor).wf(),
        i <= n,
    ensures
        final(cursor).wf(),
        final(cursor).spec_data() == old(cursor).spec_data(),
        match spec_parse_id_list(
            old(cursor).spec_data(),
            old(cursor).spec_pos(),
            n as int - i as int,
        ) {
            Result::Ok((ids, p)) => r is Ok && ids_model(final(out)@) == ids_model(old(out)@)
                + ids && final(out)@.len() == old(out)@.len() + ids.len() && final(cursor).spec_pos() == p,
            Result::Err(e) => r == Result::<(), MetadataError>::Err(e),
        },
    decreases n - i,
{
    let ghost out0 = out@;
    if i >= n {
        proof {
            assert(ids_model(out0) + Seq::<u32>::empty() =~= ids_model(out0));
        }
        return Result::Ok(());
    }
    let id = match md_compact_u32(cursor) {
        Result::Ok(id) => id,
        Result::Err(e) => { return Result::Err(e); },
    };
    out.push(TypeId::from_u32(id));
    proof {
        assert(ids_model(out@) =~= ids_model(out0) + seq![id]);
    }
    let ghost p1 = cursor.spec_pos();
    match read_ids_into(cursor, n, i + 1, out) {
        Result::Ok(u) => u,
        Result::Err(e) => { return Result::Err(e); },
    }
    proof {
        let data = old(cursor).spec_data();
        match spec_parse_id_list(data, p1, n as int - i as int - 1) {
            Result::Ok((ids2, p2)) => {
                assert(ids_model(out@) == (ids_model(out0) + seq![id]) + ids2);
                assert((ids_model(out0) + seq![id]) + ids2 =~= ids_model(out0) + (seq![id]
                    + ids2));
            },
            Result::Err(e) => {
                // impossible: the call above returned successfully
                assert(false);
            },
        }
    }
    Result::Ok(())
}

/// The primitive kind a tag byte denotes, if any.
fn primitive_kind_of(b: u8) -> (r: Option<PrimitiveKind>)
    ensures
        r == spec_primitive_kind(b),
{
    if b == 0 {
        Option::Some(PrimitiveKind::Bool)
    } else if b == 1 {
        Option::Some(PrimitiveKind::Char)
    } else if b == 2 {
        Option::Some(PrimitiveKind::Str)
    } else if b == 3 {
        Option::Some(PrimitiveKind::U8)
    } else if b == 4 {
        Option::Some(PrimitiveKind::U16)
    } else if b == 5 {
        Option::Some(PrimitiveKind::U32)
    } else if b == 6 {
        Option::Some(PrimitiveKind::U64)
    } else if b == 7 {
        Option::Some(PrimitiveKind::U128)
    } else if b == 8 {
        Option::Some(PrimitiveKind::U256)
    } else if b == 9 {
        Option::Some(PrimitiveKind::I8)
    } else if b == 10 {
        Option::Some(PrimitiveKind::I16)
    } else if b == 11 {
        Option::Some(PrimitiveKind::I32)
    } else if b == 12 {
        Option::Some(PrimitiveKind::I64)
    } else if b == 13 {
        Option::Some(PrimitiveKind::I128)
    } else if b == 14 {
        Option::Some(PrimitiveKind::I256)
    } else {
        Option::None
    }
}

/// Read one type definition.
fn read_typedef(cursor: &mut ByteCursor) -> (r: Result<TypeDef, MetadataError>)
    requires
        old(cursor).wf(),
    ensures
        final(cursor).wf(),
        final(cursor).spec_data() == old(cursor).spec_data(),
        match spec_parse_typedef(old(cursor).spec_data(), old(cursor).spec_pos()) {
            Result::Ok((d, p)) => r matches Result::Ok(x) && type_def_model(x) == d && final(cursor).spec_pos() == p,
            Result::Err(e) => r == Result::<TypeDef, MetadataError>::Err(e),
        },
{
    let tag = match md_byte(cursor) {
        Result::Ok(b) => b,
        Result::Err(e) => { return Result::Err(e); },
    };
    if tag == 0 {
        let fields = match read_fields(cursor) {
            Result::Ok(f) => f,
            Result::Err(e) => { return Result::Err(e); },
        };
        Result::Ok(TypeDef::Composite { fields })
    } else if tag == 1 {
        let k = match md_compact_u32(cursor) {
            Result::Ok(k) => k,
            Result::Err(e) => { return Result::Err(e); },
        };
        let mut variants: Vec<VariantDef> = Vec::new();
        proof {
            assert(variants_model(Seq::<VariantDef>::empty()) =~= Seq::<
                VariantDefModel,
            >::empty());
        }
        match read_variants_into(cursor, k, 0, &mut variants) {
            Result::Ok(u) => u,
            Result::Err(e) => { return Result::Err(e); },
        }
        Result::Ok(TypeDef::Variant { variants })
    } else if tag == 2 {
        let element = match md_compact_u32(cursor) {
            Result::Ok(x) => x,
            Result::Err(e) => { return Result::Err(e); },
        };
        Result::Ok(TypeDef::Sequence { element: TypeId::from_u32(element) })
    } else if tag == 3 {
        let bs = match cursor.read_fixed(4) {
            Result::Ok(bs) => bs,
            Result::Err(e) => { return Result::Err(md_err(e)); },
        };
        let len: u32 = bs[0] as u32 + 256 * (bs[1] as u32) + 65536 * (bs[2] as u32) + 16777216
            * (bs[3] as u32);
        let element = match md_compact_u32(cursor) {
            Result::Ok(x) => x,
            Result::Err(e) => { return Result::Err(e); },
        };
        Result::Ok(TypeDef::Array { len, element: TypeId::from_u32(element) })
    } else if tag == 4 {
        let k = match md_compact_u32(cursor) {
            Result::Ok(k) => k,
            Result::Err(e) => { return Result::Err(e); },
        };
        let mut elements: Vec<TypeId> = Vec::new();
        proof {
            assert(ids_model(Seq::<TypeId>::empty()) =~= Seq::<u32>::empty());
        }
        match read_ids_into(cursor, k, 0, &mut elements) {
            Result::Ok(u) => u,
            Result::Err(e) => { return Result::Err(e); },
        }
        Result::Ok(TypeDef::Tuple { elements })
    } else if tag == 5 {
        let pb = match md_byte(cursor) {
            Result::Ok(b) => b,
            Result::Err(e) => { return Result::Err(e); },
        };
        match primitive_kind_of(pb) {
            Option::Some(kind) => Result::Ok(TypeDef::Primitive { kind }),
            Option::None => Result::Err(MetadataError::UnsupportedTypeDefinition { tag: pb }),
        }
    } else if tag == 6 {
        let inner = match md_compact_u32(cursor) {
            Result::Ok(x) => x,
            Result::Err(e) => { return Result::Err(e); },
        };
        Result::Ok(TypeDef::Compact { inner: TypeId::from_u32(inner) })
    } else if tag == 7 {
        let store = match md_compact_u32(cursor) {
            Result::Ok(x) => x,
            Result::Err(e) => { return Result::Err(e); },
        };
        let order = match md_compact_u32(cursor) {
            Result::Ok(x) => x,
            Result::Err(e) => { return Result::Err(e); },
        };
        Result::Ok(
            TypeDef::BitSequence {
                store: TypeId::from_u32(store),
                order: TypeId::from_u32(order),
            },
        )
    } else {
        Result::Err(MetadataError::UnsupportedTypeDefinition { tag })
    }
}

/// Read `n - i` more path segments, appending each to `out`.
fn read_path_into(cursor: &mut ByteCursor, n: u32, i: u32, out: &mut Vec<String>) -> (r: Result<
    (),
    MetadataError,
>)
    requires
        old(cursor).wf(),
        i <= n,
    ensures
        final(cursor).wf(),
        final(cursor).spec_data() == old(cursor).spec_data(),
        match spec_parse_path(
            old(cursor).spec_data(),
            old(cursor).spec_pos(),
            n as int - i as int,
        ) {
            Result::Ok((ss, p)) => r is Ok && strings_model(final(out)@) == strings_model(
                old(out)@,
            ) + ss && final(out)@.len() == old(out)@.len() + ss.len()
                && final(cursor).spec_pos() == p,
            Result::Err(e) => r == Result::<(), MetadataError>::Err(e),
        },
    decreases n - i,
{
    let ghost out0 = out@;
    if i >= n {
        proof {
            assert(strings_model(out0) + Seq::<Seq<char>>::empty() =~= strings_model(out0));
        }
        return Result::Ok(());
    }
    let s = match read_str(cursor) {
        Result::Ok(s) => s,
        Result::Err(e) => { return Result::Err(e); },
    };
    let ghost sm = s@;
    out.push(s);
    proof {
        assert(strings_model(out@) =~= strings_model(out0) + seq![sm]);
    }
    let ghost p1 = cursor.spec_pos();
    match read_path_into(cursor, n, i + 1, out) {
        Result::Ok(u) => u,
        Result::Err(e) => { return Result::Err(e); },
    }
    proof {
        let data = old(cursor).spec_data();
        match spec_parse_path(data, p1, n as int - i as int - 1) {
            Result::Ok((ss2, p2)) => {
                assert(strings_model(out@) == (strings_model(out0) + seq![sm]) + ss2);
                assert((strings_model(out0) + seq![sm]) + ss2 =~= strings_model(out0) + (
                seq![sm] + ss2));
            },
            Result::Err(e) => {
                // impossible: the call above returned successfully
                assert(false);
            },
        }
    }
    Result::Ok(())
}

/// Read one registry entry.
fn read_entry(cursor: &mut ByteCursor) -> (r: Result<PortableType, MetadataError>)
    requires
        old(cursor).wf(),
    ensures
        final(cursor).wf(),
        final(cursor).spec_data() == old(cursor).spec_data(),
        match spec_parse_entry(old(cursor).spec_data(), old(cursor).spec_pos()) {
            Result::Ok((t, p)) => r matches Result::Ok(x) && portable_type_model(x) == t
                && final(cursor).spec_pos() == p,
            Result::Err(e) => r == Result::<PortableType, MetadataError>::Err(e),
        },
{
    let id = match md_compact_u32(cursor) {
        Result::Ok(id) => id,
        Result::Err(e) => { return Result::Err(e); },
    };
    let k = match md_compact_u32(cursor) {
        Result::Ok(k) => k,
        Result::Err(e) => { return Result::Err(e); },
    };
    let mut path: Vec<String> = Vec::new();
    proof {
        assert(strings_model(Seq::<String>::empty()) =~= Seq::<Seq<char>>::empty());
    }
    match read_path_into(cursor, k, 0, &mut path) {
        Result::Ok(u) => u,
        Result::Err(e) => { return Result::Err(e); },
    }
    let def = match read_typedef(cursor) {
        Result::Ok(d) => d,
        Result::Err(e) => { return Result::Err(e); },
    };
    Result::Ok(PortableType { id, path, def })
}

/// Read `n - i` more registry entries, appending each to `out`.
fn read_entries_into(cursor: &mut ByteCursor, n: u32, i: u32, out: &mut Vec<PortableType>) -> (r:
    Result<(), MetadataError>)
    requires
        old(cursor).wf(),
        i <= n,
    ensures
        final(cursor).wf(),
        final(cursor).spec_data() == old(cursor).spec_data(),
        match spec_parse_entries(
            old(cursor).spec_data(),
            old(cursor).spec_pos(),
            n as int - i as int,
        ) {
            Result::Ok((ts, p)) => r is Ok && crate::registry::portable_types_model(final(out)@)
                == crate::registry::portable_types_model(old(out)@) + ts && final(out)@.len()
                == old(out)@.len() + ts.len() && final(cursor).spec_pos() == p,
            Result::Err(e) => r == Result::<(), MetadataError>::Err(e),
        },
    decreases n - i,
{
    let ghost out0 = out@;
    if i >= n {
        proof {
            assert(crate::registry::portable_types_model(out0) + Seq::<
                PortableTypeModel,
            >::empty() =~= crate::registry::portable_types_model(out0));
        }
        return Result::Ok(());
    }
    let t = match read_entry(cursor) {
        Result::Ok(t) => t,
        Result::Err(e) => { return Result::Err(e); },
    };
    let ghost tm = portable_type_model(t);
    out.push(t);
    proof {
        assert(crate::registry::portable_types_model(out@) =~= crate::registry::portable_types_model(out0) + seq![tm]);
    }
    let ghost p1 = cursor.spec_pos();
    match read_entries_into(cursor, n, i + 1, out) {
        Result::Ok(u) => u,
        Result::Err(e) => { return Result::Err(e); },
    }
    proof {
        let data = old(cursor).spec_data();
        match spec_parse_entries(data, p1, n as int - i as int - 1) {
            Result::Ok((ts2, p2)) => {
                assert(crate::registry::portable_types_model(out@) == (
                crate::registry::portable_types_model(out0) + seq![tm]) + ts2);
                assert((crate::registry::portable_types_model(out0) + seq![tm]) + ts2
                    =~= crate::registry::portable_types_model(out0) + (seq![tm] + ts2));
            },
            Result::Err(e) => {
                // impossible: the call above returned successfully
                assert(false);
            },
        }
    }
    Result::Ok(())
}

/// The mirror of a parsed pallet record list, elementwise.
pub open spec fn pallet_recs_model(s: Seq<(u8, String, Option<TypeId>)>) -> Seq<
    (u8, Seq<char>, Option<u32>),
> {
    s.map(
        |i: int, p: (u8, String, Option<TypeId>)|
            (
                p.0,
                p.1@,
                match p.2 {
                    Option::Some(t) => Option::Some(t.spec_id()),
                    Option::None => Option::<u32>::None,
                },
            ),
    )
}

/// Read one pallet record.
fn read_pallet(cursor: &mut ByteCursor) -> (r: Result<(u8, String, Option<TypeId>), MetadataError>)
    requires
        old(cursor).wf(),
    ensures
        final(cursor).wf(),
        final(cursor).spec_data() == old(cursor).spec_data(),
        match spec_parse_pallet(old(cursor).spec_data(), old(cursor).spec_pos()) {
            Result::Ok((pr, p)) => r matches Result::Ok(x) && x.0 == pr.0 && x.1@ == pr.1
                && (match x.2 {
                Option::Some(t) => pr.2 matches Option::Some(tm) && t.spec_id() == tm,
                Option::None => pr.2 is None,
            }) && final(cursor).spec_pos() == p,
            Result::Err(e) => r == Result::<(u8, String, Option<TypeId>), MetadataError>::Err(e),
        },
{
    let index = match md_byte(cursor) {
        Result::Ok(b) => b,
        Result::Err(e) => { return Result::Err(e); },
    };
    let name = match read_str(cursor) {
        Result::Ok(s) => s,
        Result::Err(e) => { return Result::Err(e); },
    };
    let flag = match md_byte(cursor) {
        Result::Ok(b) => b,
        Result::Err(e) => { return Result::Err(e); },
    };
    if flag == 0 {
        Result::Ok((index, name, Option::None))
    } else if flag == 1 {
        let ty = match md_compact_u32(cursor) {
            Result::Ok(t) => t,
            Result::Err(e) => { return Result::Err(e); },
        };
        Result::Ok((index, name, Option::Some(TypeId::from_u32(ty))))
    } else {
        Result::Err(MetadataError::UnsupportedTypeDefinition { tag: flag })
    }
}

/// Read `n - i` more pallet records, appending each to `out`.
fn read_pallets_into(cursor: &mut ByteCursor, n: u32, i: u32,
    out: &mut Vec<(u8, String, Option<TypeId>)>) -> (r: Result<(), MetadataError>)
    requires
        old(cursor).wf(),
        i <= n,
    ensures
        final(cursor).wf(),
        final(cursor).spec_data() == old(cursor).spec_data(),
        match spec_parse_pallet_list(
            old(cursor).spec_data(),
            old(cursor).spec_pos(),
            n as int - i as int,
        ) {
            Result::Ok((ps, p)) => r is Ok && pallet_recs_model(final(out)@) == pallet_recs_model(
                old(out)@,
            ) + ps && final(out)@.len() == old(out)@.len() + ps.len()
                && final(cursor).spec_pos() == p,
            Result::Err(e) => r == Result::<(), MetadataError>::Err(e),
        },
    decreases n - i,
{
    let ghost out0 = out@;
    if i >= n {
        proof {
            assert(pallet_recs_model(out0) + Seq::<(u8, Seq<char>, Option<u32>)>::empty()
                =~= pallet_recs_model(out0));
        }
        return Result::Ok(());
    }
    let pr = match read_pallet(cursor) {
        Result::Ok(pr) => pr,
        Result::Err(e) => { return Result::Err(e); },
    };
    let ghost prm = (
        pr.0,
        pr.1@,
        match pr.2 {
            Option::Some(t) => Option::Some(t.spec_id()),
            Option::None => Option::<u32>::None,
        },
    );
    out.push(pr);
    proof {
        assert(pallet_recs_model(out@) =~= pallet_recs_model(out0) + seq![prm]);
    }
    let ghost p1 = cursor.spec_pos();
    match read_pallets_into(cursor, n, i + 1, out) {
        Result::Ok(u) => u,
        Result::Err(e) => { return Result::Err(e); },
    }
    proof {
        let data = old(cursor).spec_data();
        match spec_parse_pallet_list(data, p1, n as int - i as int - 1) {
            Result::Ok((ps2, p2)) => {
                assert(pallet_recs_model(out@) == (pallet_recs_model(out0) + seq![prm]) + ps2);
                assert((pallet_recs_model(out0) + seq![prm]) + ps2 =~= pallet_recs_model(out0) + (
                seq![prm] + ps2));
            },
            Result::Err(e) => {
                // impossible: the call above returned successfully
                assert(false);
            },
        }
    }
    Result::Ok(())
}

/// Read one signed-extension record.
fn read_sigext(cursor: &mut ByteCursor) -> (r: Result<SignedExtensionMetadata, MetadataError>)
    requires
        old(cursor).wf(),
    ensures
        final(cursor).wf(),
        final(cursor).spec_data() == old(cursor).spec_data(),
        match spec_parse_sigext(old(cursor).spec_data(), old(cursor).spec_pos()) {
            Result::Ok((s, p)) => r matches Result::Ok(x) && sigext_model(x) == s
                && final(cursor).spec_pos() == p,
            Result::Err(e) => r == Result::<SignedExtensionMetadata, MetadataError>::Err(e),
        },
{
    let identifier = match read_str(cursor) {
        Result::Ok(s) => s,
        Result::Err(e) => { return Result::Err(e); },
    };
    let ty = match md_compact_u32(cursor) {
        Result::Ok(t) => t,
        Result::Err(e) => { return Result::Err(e); },
    };
    let additional_signed = match md_compact_u32(cursor) {
        Result::Ok(t) => t,
        Result::Err(e) => { return Result::Err(e); },
    };
    Result::Ok(
        SignedExtensionMetadata {
            identifier,
            ty: TypeId::from_u32(ty),
            additional_signed: TypeId::from_u32(additional_signed),
        },
    )
}

/// Read `n - i` more signed-extension records, appending each to `out`.
fn read_sigexts_into(cursor: &mut ByteCursor, n: u32, i: u32,
    out: &mut Vec<SignedExtensionMetadata>) -> (r: Result<(), MetadataError>)
    requires
        old(cursor).wf(),
        i <= n,
    ensures
        final(cursor).wf(),
        final(cursor).spec_data() == old(cursor).spec_data(),
        match spec_parse_sigexts(
            old(cursor).spec_data(),
            old(cursor).spec_pos(),
            n as int - i as int,
        ) {
            Result::Ok((ss, p)) => r is Ok && sigexts_model(final(out)@) == sigexts_model(
                old(out)@,
            ) + ss && final(out)@.len() == old(out)@.len() + ss.len()
                && final(cursor).spec_pos() == p,
            Result::Err(e) => r == Result::<(), MetadataError>::Err(e),
        },
    decreases n - i,
{
    let ghost out0 = out@;
    if i >= n {
        proof {
            assert(sigexts_model(out0) + Seq::<SignedExtensionModel>::empty() =~= sigexts_model(
                out0,
            ));
        }
        return Result::Ok(());
    }
    let s = match read_sigext(cursor) {
        Result::Ok(s) => s,
        Result::Err(e) => { return Result::Err(e); },
    };
    let ghost sm = sigext_model(s);
    out.push(s);
    proof {
        assert(sigexts_model(out@) =~= sigexts_model(out0) + seq![sm]);
    }
    let ghost p1 = cursor.spec_pos();
    match read_sigexts_into(cursor, n, i + 1, out) {
        Result::Ok(u) => u,
        Result::Err(e) => { return Result::Err(e); },
    }
    proof {
        let data = old(cursor).spec_data();
        match spec_parse_sigexts(data, p1, n as int - i as int - 1) {
            Result::Ok((ss2, p2)) => {
                assert(sigexts_model(out@) == (sigexts_model(out0) + seq![sm]) + ss2);
                assert((sigexts_model(out0) + seq![sm]) + ss2 =~= sigexts_model(out0) + (
                seq![sm] + ss2));
            },
            Result::Err(e) => {
                // impossible: the call above returned successfully
                assert(false);
            },
        }
    }
    Result::Ok(())
}

/// Build the calls descriptor for a calls type id: the type must resolve to
/// a variant definition; each discriminant maps to its variant's position.
fn build_calls(types: &PortableRegistry, calls_ty: TypeId) -> (r: Result<
    MetadataCalls,
    MetadataError,
>)
    ensures
        match spec_build_calls(registry_model(*types), calls_ty.spec_id()) {
            Result::Ok(cm) => r matches Result::Ok(c) && calls_model(c) == cm,
            Result::Err(e) => r == Result::<MetadataCalls, MetadataError>::Err(e),
        },
{
    let entry = match types.resolve(calls_ty) {
        Option::Some(e) => e,
        Option::None => {
            return Result::Err(MetadataError::TypeNotFound { id: calls_ty.id() });
        },
    };
    match &entry.def {
        TypeDef::Variant { variants } => {
            let n: usize = variants.len();
            let mut indexes: Vec<(u8, usize)> = Vec::new();
            let mut k: usize = 0;
            while k < n
                invariant
                    0 <= k <= n,
                    n == variants.len(),
                    indexes@.len() == k,
                    forall|j: int| 0 <= j < k ==> indexes@[j] == (variants@[j].index, j as usize),
                decreases n - k,
            {
                indexes.push((variants[k].index, k));
                k = k + 1;
            }
            proof {
                let vm = variants_model(variants@);
                assert(indexes@ =~= Seq::new(vm.len(), |j: int| (vm[j].index, j as usize)));
            }
            Result::Ok(MetadataCalls { calls_type_id: calls_ty, call_variant_indexes: indexes })
        },
        _ => Result::Err(MetadataError::ExpectedVariantType { got: entry.def.kind() }),
    }
}

/// Build the pallet table from the parsed records, index `i` on.
fn build_pallets_into(types: &PortableRegistry, parsed: &Vec<(u8, String, Option<TypeId>)>,
    i: usize, out: &mut Vec<(u8, MetadataPallet)>) -> (r: Result<(), MetadataError>)
    requires
        i <= parsed@.len(),
    ensures
        match spec_build_pallets(
            registry_model(*types),
            pallet_recs_model(parsed@).subrange(i as int, parsed@.len() as int),
        ) {
            Result::Ok(ps) => r is Ok && pallets_model(final(out)@) == pallets_model(old(out)@)
                + ps && final(out)@.len() == old(out)@.len() + ps.len(),
            Result::Err(e) => r == Result::<(), MetadataError>::Err(e),
        },
    decreases parsed@.len() - i,
{
    let ghost out0 = out@;
    let ghost prm = pallet_recs_model(parsed@);
    if i >= parsed.len() {
        proof {
            assert(prm.subrange(i as int, prm.len() as int) =~= Seq::<
                (u8, Seq<char>, Option<u32>),
            >::empty());
            assert(pallets_model(out0) + Seq::<(u8, PalletModel)>::empty() =~= pallets_model(
                out0,
            ));
        }
        return Result::Ok(());
    }
    proof {
        assert(prm.subrange(i as int, prm.len() as int)[0] == prm[i as int]);
        assert(prm.subrange(i as int, prm.len() as int).subrange(
            1,
            prm.len() as int - i as int,
        ) =~= prm.subrange(i + 1, prm.len() as int));
    }
    let index: u8 = parsed[i].0;
    let name: String = parsed[i].1.clone();
    let calls: Option<MetadataCalls> = match &parsed[i].2 {
        Option::None => Option::None,
        Option::Some(ty) => match build_calls(types, *ty) {
            Result::Ok(c) => Option::Some(c),
            Result::Err(e) => { return Result::Err(e); },
        },
    };
    let pallet = MetadataPallet { name, calls };
    let ghost pm = (index, pallet_model(pallet));
    out.push((index, pallet));
    proof {
        assert(pallets_model(out@) =~= pallets_model(out0) + seq![pm]);
    }
    match build_pallets_into(types, parsed, i + 1, out) {
        Result::Ok(u) => u,
        Result::Err(e) => { return Result::Err(e); },
    }
    proof {
        match spec_build_pallets(registry_model(*types), prm.subrange(i + 1, prm.len() as int)) {
            Result::Ok(ps2) => {
                assert(pallets_model(out@) == (pallets_model(out0) + seq![pm]) + ps2);
                assert((pallets_model(out0) + seq![pm]) + ps2 =~= pallets_model(out0) + (
                seq![pm] + ps2));
            },
            Result::Err(e) => {
                // impossible: the call above returned successfully
                assert(false);
            },
        }
    }
    Result::Ok(())
}

/// Building a metadata value from already-materialized parts: resolve each
/// pallet's calls type and record the discriminant-to-position map.
pub open spec fn spec_new_metadata(
    reg: RegistryModel,
    precs: Seq<(u8, Seq<char>, Option<u32>)>,
    ext: ExtrinsicModel,
) -> Result<MetadataModel, MetadataError> {
    match spec_build_pallets(reg, precs) {
        Result::Ok(ps) => Result::Ok(MetadataModel { extrinsic: ext, pallets: ps, types: reg }),
        Result::Err(e) => Result::Err(e),
    }
}

/// The pallet under an index: the first table entry carrying it.
pub open spec fn spec_pallet_lookup(s: Seq<(u8, PalletModel)>, k: u8) -> Option<PalletModel>
    decreases s.len(),
{
    if s.len() == 0 {
        Option::None
    } else if s[0].0 == k {
        Option::Some(s[0].1)
    } else {
        spec_pallet_lookup(s.subrange(1, s.len() as int), k)
    }
}

/// The variant position under a call discriminant: the first map entry
/// carrying it.
pub open spec fn spec_index_lookup(s: Seq<(u8, usize)>, k: u8) -> Option<usize>
    decreases s.len(),
{
    if s.len() == 0 {
        Option::None
    } else if s[0].0 == k {
        Option::Some(s[0].1)
    } else {
        spec_index_lookup(s.subrange(1, s.len() as int), k)
    }
}

/// The pallet name and call variant the pair of index bytes selects, if the
/// metadata lists such a call.
pub open spec fn spec_call_variant(m: MetadataModel, pallet: u8, call: u8) -> Option<
    (Seq<char>, VariantDefModel),
> {
    match spec_pallet_lookup(m.pallets, pallet) {
        Option::None => Option::None,
        Option::Some(pm) => match pm.calls {
            Option::None => Option::None,
            Option::Some(calls) => match reg_resolve(m.types, calls.calls_type_id) {
                Option::None => Option::None,
                Option::Some(entry) => match entry.def {
                    TypeDefModel::Variant { variants } => match spec_index_lookup(
                        calls.call_variant_indexes,
                        call,
                    ) {
                        Option::None => Option::None,
                        Option::Some(ix) => if ix < variants.len() {
                            Option::Some((pm.name, variants[ix as int]))
                        } else {
                            Option::None
                        },
                    },
                    _ => Option::None,
                },
            },
        },
    }
}

/// The first pallet table entry under an index, if any.
fn pallet_lookup<'a>(pallets: &'a Vec<(u8, MetadataPallet)>, k: u8) -> (r: Option<
    &'a MetadataPallet,
>)
    ensures
        match r {
            Option::Some(p) => spec_pallet_lookup(pallets_model(pallets@), k)
                == Option::Some(pallet_model(*p)),
            Option::None => spec_pallet_lookup(pallets_model(pallets@), k) is None,
        },
{
    let n: usize = pallets.len();
    let mut i: usize = 0;
    proof {
        assert(pallets_model(pallets@).subrange(0, n as int) =~= pallets_model(pallets@));
    }
    while i < n
        invariant
            0 <= i <= n,
            n == pallets.len(),
            spec_pallet_lookup(pallets_model(pallets@), k) == spec_pallet_lookup(
                pallets_model(pallets@).subrange(i as int, n as int),
                k,
            ),
        decreases n - i,
    {
        if pallets[i].0 == k {
            proof {
                let m = pallets_model(pallets@);
                let tail = m.subrange(i as int, n as int);
                assert(tail[0] == m[i as int]);
            }
            return Option::Some(&pallets[i].1);
        }
        proof {
            let m = pallets_model(pallets@);
            let tail = m.subrange(i as int, n as int);
            assert(tail[0] == m[i as int]);
            assert(tail.subrange(1, tail.len() as int) =~= m.subrange(i + 1, n as int));
        }
        i = i + 1;
    }
    proof {
        assert(pallets_model(pallets@).subrange(n as int, n as int) =~= Seq::empty());
    }
    Option::None
}

/// The first discriminant map entry under a call index, if any.
fn index_lookup(v: &Vec<(u8, usize)>, k: u8) -> (r: Option<usize>)
    ensures
        r == spec_index_lookup(v@, k),
{
    let n: usize = v.len();
    let mut i: usize = 0;
    proof {
        assert(v@.subrange(0, n as int) =~= v@);
    }
    while i < n
        invariant
            0 <= i <= n,
            n == v.len(),
            spec_index_lookup(v@, k) == spec_index_lookup(v@.subrange(i as int, n as int), k),
        decreases n - i,
    {
        if v[i].0 == k {
            proof {
                let tail = v@.subrange(i as int, n as int);
                assert(tail[0] == v@[i as int]);
            }
            return Option::Some(v[i].1);
        }
        proof {
            let tail = v@.subrange(i as int, n as int);
            assert(tail[0] == v@[i as int]);
            assert(tail.subrange(1, tail.len() as int) =~= v@.subrange(i + 1, n as int));
        }
        i = i + 1;
    }
    proof {
        assert(v@.subrange(n as int, n as int) =~= Seq::empty());
    }
    Option::None
}

impl Metadata {
    /// Attempt to convert a SCALE-style metadata blob into `Metadata`,
    /// returning the first error met in doing so.
    pub fn from_bytes(bytes: &[u8]) -> (r: Result<Metadata, MetadataError>)
        ensures
            match spec_parse_metadata(bytes@) {
                Result::Ok(mm) => r matches Result::Ok(m) && metadata_model(m) == mm,
                Result::Err(e) => r == Result::<Metadata, MetadataError>::Err(e),
            },
    {
        if bytes.len() < 4 {
            return Result::Err(
                MetadataError::UnexpectedEof { need: 4, have: bytes.len() as u64, offset: 0 },
            );
        }
        if !(bytes[0] == 0x6d && bytes[1] == 0x65 && bytes[2] == 0x74 && bytes[3] == 0x61) {
            return Result::Err(MetadataError::BadMagic);
        }
        let mut cursor = ByteCursor::new(bytes);
        // the magic was compared above; this read only advances past it
        let _magic = match cursor.read_fixed(4) {
            Result::Ok(b) => b,
            Result::Err(e) => {
                // unreachable: the length was checked just above
                proof {
                    assert(false);
                }
                return Result::Err(md_err(e));
            },
        };
        let version = match md_byte(&mut cursor) {
            Result::Ok(v) => v,
            Result::Err(e) => { return Result::Err(e); },
        };
        if version != 14 {
            return Result::Err(MetadataError::UnsupportedVersion { got: version });
        }
        let np = match md_compact_u32(&mut cursor) {
            Result::Ok(v) => v,
            Result::Err(e) => { return Result::Err(e); },
        };
        let mut precs: Vec<(u8, String, Option<TypeId>)> = Vec::new();
        proof {
            assert(pallet_recs_model(Seq::<(u8, String, Option<TypeId>)>::empty()) =~= Seq::<
                (u8, Seq<char>, Option<u32>),
            >::empty());
        }
        match read_pallets_into(&mut cursor, np, 0, &mut precs) {
            Result::Ok(u) => u,
            Result::Err(e) => { return Result::Err(e); },
        }
        let xver = match md_byte(&mut cursor) {
            Result::Ok(v) => v,
            Result::Err(e) => { return Result::Err(e); },
        };
        let addr = match md_compact_u32(&mut cursor) {
            Result::Ok(v) => v,
            Result::Err(e) => { return Result::Err(e); },
        };
        let sig = match md_compact_u32(&mut cursor) {
            Result::Ok(v) => v,
            Result::Err(e) => { return Result::Err(e); },
        };
        let ns = match md_compact_u32(&mut cursor) {
            Result::Ok(v) => v,
            Result::Err(e) => { return Result::Err(e); },
        };
        let mut exts: Vec<SignedExtensionMetadata> = Vec::new();
        proof {
            assert(sigexts_model(Seq::<SignedExtensionMetadata>::empty()) =~= Seq::<
                SignedExtensionModel,
            >::empty());
        }
        match read_sigexts_into(&mut cursor, ns, 0, &mut exts) {
            Result::Ok(u) => u,
            Result::Err(e) => { return Result::Err(e); },
        }
        let nt = match md_compact_u32(&mut cursor) {
            Result::Ok(v) => v,
            Result::Err(e) => { return Result::Err(e); },
        };
        let mut entries: Vec<PortableType> = Vec::new();
        proof {
            assert(crate::registry::portable_types_model(Seq::<PortableType>::empty()) =~= Seq::<
                PortableTypeModel,
            >::empty());
        }
        match read_entries_into(&mut cursor, nt, 0, &mut entries) {
            Result::Ok(u) => u,
            Result::Err(e) => { return Result::Err(e); },
        }
        let types = PortableRegistry { types: entries };
        let mut pallets: Vec<(u8, MetadataPallet)> = Vec::new();
        proof {
            assert(pallets_model(Seq::<(u8, MetadataPallet)>::empty()) =~= Seq::<
                (u8, PalletModel),
            >::empty());
            assert(pallet_recs_model(precs@).subrange(0, precs@.len() as int)
                =~= pallet_recs_model(precs@));
        }
        match build_pallets_into(&types, &precs, 0, &mut pallets) {
            Result::Ok(u) => u,
            Result::Err(e) => { return Result::Err(e); },
        }
        let extrinsic = MetadataExtrinsic {
            version: xver,
            address_ty: TypeId::from_u32(addr),
            signature_ty: TypeId::from_u32(sig),
            signed_extensions: exts,
        };
        Result::Ok(Metadata { extrinsic, pallets, types })
    }

    /// Build a metadata value directly from its parts: a registry, the
    /// pallet records, and the extrinsic descriptor.
    pub fn new(types: PortableRegistry, pallet_records: Vec<(u8, String, Option<TypeId>)>,
        extrinsic: MetadataExtrinsic) -> (r: Result<Metadata, MetadataError>)
        ensures
            match spec_new_metadata(
                registry_model(types),
                pallet_recs_model(pallet_records@),
                extrinsic_model(extrinsic),
            ) {
                Result::Ok(mm) => r matches Result::Ok(m) && metadata_model(m) == mm,
                Result::Err(e) => r == Result::<Metadata, MetadataError>::Err(e),
            },
    {
        let mut pallets: Vec<(u8, MetadataPallet)> = Vec::new();
        proof {
            assert(pallets_model(Seq::<(u8, MetadataPallet)>::empty()) =~= Seq::<
                (u8, PalletModel),
            >::empty());
            assert(pallet_recs_model(pallet_records@).subrange(
                0,
                pallet_records@.len() as int,
            ) =~= pallet_recs_model(pallet_records@));
        }
        match build_pallets_into(&types, &pallet_records, 0, &mut pallets) {
            Result::Ok(u) => u,
            Result::Err(e) => { return Result::Err(e); },
        }
        Result::Ok(Metadata { extrinsic, pallets, types })
    }

    /// Return details about the type of extrinsic supported by this metadata.
    pub fn extrinsic(&self) -> (r: &MetadataExtrinsic)
        ensures
            r == &self.extrinsic,
    {
        &self.extrinsic
    }

    /// Return a reference to the type registry.
    pub fn types(&self) -> (r: &PortableRegistry)
        ensures
            r == &self.types,
    {
        &self.types
    }

    /// Given the index bytes of a pallet and call, return the pallet name and
    /// the call's variant, or `None` if no such call exists.
    pub fn call_variant_by_enum_index(&self, pallet: u8, call: u8) -> (r: Option<
        (&String, &VariantDef),
    >)
        ensures
            match r {
                Option::Some(nv) => spec_call_variant(metadata_model(*self), pallet, call)
                    == Option::Some((nv.0@, variant_def_model(*nv.1))),
                Option::None => spec_call_variant(metadata_model(*self), pallet, call) is None,
            },
    {
        let p = match pallet_lookup(&self.pallets, pallet) {
            Option::Some(p) => p,
            Option::None => { return Option::None; },
        };
        let calls = match &p.calls {
            Option::Some(c) => c,
            Option::None => { return Option::None; },
        };
        let entry = match self.types.resolve(calls.calls_type_id) {
            Option::Some(e) => e,
            Option::None => { return Option::None; },
        };
        match &entry.def {
            TypeDef::Variant { variants } => {
                let ix = match index_lookup(&calls.call_variant_indexes, call) {
                    Option::Some(ix) => ix,
                    Option::None => { return Option::None; },
                };
                if ix < variants.len() {
                    proof {
                        assert(variants_model(variants@)[ix as int] == variant_def_model(
                            variants@[ix as int],
                        ));
                    }
                    Option::Some((&p.name, &variants[ix]))
                } else {
                    Option::None
                }
            },
            _ => Option::None,
        }
    }

    /// The variant definitions behind a type id, or `None` when the id does
    /// not resolve to a variant type.
    pub fn get_variant(&self, ty: TypeId) -> (r: Option<&Vec<VariantDef>>)
        ensures
            match r {
                Option::Some(vs) => reg_resolve(registry_model(self.types), ty.spec_id())
                    matches Option::Some(e) && e.def == (TypeDefModel::Variant {
                    variants: variants_model(vs@),
                }),
                Option::None => !(reg_resolve(registry_model(self.types), ty.spec_id())
                    matches Option::Some(e) && e.def matches TypeDefModel::Variant { .. }),
            },
    {
        let entry = match self.types.resolve(ty) {
            Option::Some(e) => e,
            Option::None => { return Option::None; },
        };
        match &entry.def {
            TypeDef::Variant { variants } => Option::Some(variants),
            _ => Option::None,
        }
    }
}

impl MetadataExtrinsic {
    /// The version of the extrinsic format in use by the node.
    pub fn version(&self) -> (r: u8)
        ensures
            r == self.version,
    {
        self.version
    }

    /// The signed extensions contributing to the signature area.
    pub fn signed_extensions(&self) -> (r: &Vec<SignedExtensionMetadata>)
        ensures
            r == &self.signed_extensions,
    {
        &self.signed_extensions
    }
}

} // verus!
