//! The type-directed value decoder.
//!
//! Given a registry, a type id and a byte stream, [`decode_value`] consumes
//! exactly the bytes that encode one value of that type and returns the
//! structured [`Value`]; on any inconsistency it fails with a precise error.
//! Its behaviour — which bytes are consumed, which value is produced, which
//! error is raised — is pinned down for every input by the spec mirror
//! [`spec_decode_value`].
//!
//! Recursion over the type graph is bounded by a fuel counter.  Fuel only
//! limits the *nesting depth* of the produced value, and the initial fuel
//! grows with the input length, so any value a finite input can encode fits
//! within it; only a registry whose types cycle without consuming input
//! exhausts it, which surfaces as [`DecodeError::RecursionLimit`].

use vstd::prelude::*;
use crate::error::{DecodeError, TypeDefKind};
use crate::value::{Value, Composite, Variant, Primitive, ValueModel, CompositeModel,
    VariantModel, PrimitiveModel, value_model, composite_model, primitive_model, values_model,
    pairs_model, lemma_values_model_pointwise, lemma_pairs_model_pointwise,
    lemma_values_model_push, lemma_pairs_model_push};
use crate::registry::{PortableRegistry, TypeDef, TypeId, Field, VariantDef, PrimitiveKind,
    RegistryModel, TypeDefModel, FieldModel, VariantDefModel, registry_model,
    portable_type_model, fields_model, field_model, variants_model, variant_def_model,
    ids_model, reg_resolve};
use crate::cursor::{ByteCursor, spec_read_byte, spec_read_bytes, spec_le_value, pow256,
    lemma_le_value_bound};
use crate::compact::{spec_compact, spec_compact_u32, spec_fits, spec_fit_value, compact_fits};
use crate::cursor::{le_value_prefix, lemma_pow256_le};
use vstd::utf8::{valid_utf8, decode_utf8, is_scalar};

verus! {

broadcast use vstd::array::group_array_axioms;

/// The fuel a top-level decode starts with: generous enough that every value
/// a `len`-byte input can encode nests within it, for a registry of `rlen`
/// entries.
pub open spec fn spec_initial_fuel(len: nat, rlen: nat) -> nat {
    let l: nat = if len > 0xffffffff {
        0xffffffff
    } else {
        len
    };
    let r: nat = if rlen > 0xffff {
        0xffff
    } else {
        rlen
    };
    (l + 2) * (r + 2)
}

/// The first variant carrying discriminant `d`, if any.
pub open spec fn spec_find_variant(variants: Seq<VariantDefModel>, d: u8) -> Option<
    VariantDefModel,
>
    decreases variants.len(),
{
    if variants.len() == 0 {
        Option::None
    } else if variants[0].index == d {
        Option::Some(variants[0])
    } else {
        spec_find_variant(variants.subrange(1, variants.len() as int), d)
    }
}

/// True when every field carries a name.
pub open spec fn spec_all_named(fields: Seq<FieldModel>) -> bool {
    forall|j: int| 0 <= j < fields.len() ==> fields[j].name is Some
}

/// The composite a field list and its decoded values form: named when the
/// list is non-empty and every field has a name, unnamed otherwise.
pub open spec fn spec_mk_composite(fields: Seq<FieldModel>, vms: Seq<ValueModel>)
    -> CompositeModel {
    if fields.len() > 0 && spec_all_named(fields) {
        CompositeModel::Named(
            Seq::new(vms.len(), |j: int| (fields[j].name.unwrap(), vms[j])),
        )
    } else {
        CompositeModel::Unnamed(vms)
    }
}

/// One compact wrapper layer re-applied around a value: a named or an
/// unnamed single-field composite.
pub open spec fn spec_wrap_layer(layer: Option<Seq<char>>, v: ValueModel) -> ValueModel {
    match layer {
        Option::Some(name) => ValueModel::Composite(CompositeModel::Named(seq![(name, v)])),
        Option::None => ValueModel::Composite(CompositeModel::Unnamed(seq![v])),
    }
}

/// All wrapper layers re-applied, outermost first.
pub open spec fn spec_wrap(layers: Seq<Option<Seq<char>>>, v: ValueModel) -> ValueModel
    decreases layers.len(),
{
    if layers.len() == 0 {
        v
    } else {
        spec_wrap_layer(layers[0], spec_wrap(layers.subrange(1, layers.len() as int), v))
    }
}

/// The width in bytes of an unsigned integer kind (zero otherwise).
pub open spec fn spec_unsigned_width(kind: PrimitiveKind) -> int {
    match kind {
        PrimitiveKind::U8 => 1,
        PrimitiveKind::U16 => 2,
        PrimitiveKind::U32 => 4,
        PrimitiveKind::U64 => 8,
        PrimitiveKind::U128 => 16,
        PrimitiveKind::U256 => 32,
        _ => 0,
    }
}

/// The first `n` bytes of `s`, zero-extended to exactly `n`.
pub open spec fn spec_pad(s: Seq<u8>, n: int) -> Seq<u8> {
    Seq::new(n as nat, |i: int| if i < s.len() { s[i] } else { 0u8 })
}

/// Peeling a compact wrapper: follow single-field composites and one-element
/// tuples from `ty` down to an unsigned integer primitive, recording one
/// layer per wrapper.
pub open spec fn spec_peel(reg: RegistryModel, ty: u32, pos: int, fuel: nat) -> Result<
    (Seq<Option<Seq<char>>>, PrimitiveKind),
    DecodeError,
>
    decreases fuel,
{
    if fuel == 0 {
        Result::Err(DecodeError::RecursionLimit { type_id: ty, offset: pos as u64 })
    } else {
        match reg_resolve(reg, ty) {
            Option::None => Result::Err(DecodeError::TypeNotFound { id: ty }),
            Option::Some(entry) => match entry.def {
                TypeDefModel::Primitive { kind } => if kind.spec_is_unsigned() {
                    Result::Ok((Seq::empty(), kind))
                } else {
                    Result::Err(
                        DecodeError::UnsupportedTypeDefinition { kind: TypeDefKind::Primitive },
                    )
                },
                TypeDefModel::Composite { fields } => if fields.len() == 1 {
                    match spec_peel(reg, fields[0].ty, pos, (fuel - 1) as nat) {
                        Result::Ok((layers, kind)) => Result::Ok(
                            (seq![fields[0].name] + layers, kind),
                        ),
                        Result::Err(e) => Result::Err(e),
                    }
                } else {
                    Result::Err(
                        DecodeError::UnsupportedTypeDefinition { kind: TypeDefKind::Composite },
                    )
                },
                TypeDefModel::Tuple { elements } => if elements.len() == 1 {
                    match spec_peel(reg, elements[0], pos, (fuel - 1) as nat) {
                        Result::Ok((layers, kind)) => Result::Ok(
                            (seq![Option::<Seq<char>>::None] + layers, kind),
                        ),
                        Result::Err(e) => Result::Err(e),
                    }
                } else {
                    Result::Err(
                        DecodeError::UnsupportedTypeDefinition { kind: TypeDefKind::Tuple },
                    )
                },
                _ => Result::Err(
                    DecodeError::UnsupportedTypeDefinition { kind: entry.def.kind() },
                ),
            },
        }
    }
}

/// A compact-encoded unsigned primitive of the given kind.
pub open spec fn spec_decode_compact_prim(kind: PrimitiveKind, data: Seq<u8>, pos: int) -> Result<
    (PrimitiveModel, int),
    DecodeError,
> {
    match spec_compact(data, pos) {
        Result::Err(e) => Result::Err(e),
        Result::Ok((pl, p)) => {
            let w = spec_unsigned_width(kind);
            if !spec_fits(pl, w) {
                Result::Err(
                    DecodeError::CompactOverflow {
                        declared_width: w as u8,
                        value_bytes: pl.len() as u8,
                    },
                )
            } else {
                let v = spec_fit_value(pl, w);
                match kind {
                    PrimitiveKind::U8 => Result::Ok((PrimitiveModel::U8(v as u8), p)),
                    PrimitiveKind::U16 => Result::Ok((PrimitiveModel::U16(v as u16), p)),
                    PrimitiveKind::U32 => Result::Ok((PrimitiveModel::U32(v as u32), p)),
                    PrimitiveKind::U64 => Result::Ok((PrimitiveModel::U64(v as u64), p)),
                    PrimitiveKind::U128 => Result::Ok((PrimitiveModel::U128(v as u128), p)),
                    _ => Result::Ok((PrimitiveModel::U256(spec_pad(pl, 32)), p)),
                }
            }
        },
    }
}

/// The signed reading of an unsigned value of `w` bytes.
pub open spec fn spec_to_signed(v: nat, w: nat) -> int {
    if v < pow256(w) / 2 {
        v as int
    } else {
        v - pow256(w)
    }
}

/// A fixed-width or self-delimiting primitive value at `pos`.
pub open spec fn spec_decode_primitive(kind: PrimitiveKind, data: Seq<u8>, pos: int) -> Result<
    (PrimitiveModel, int),
    DecodeError,
> {
    match kind {
        PrimitiveKind::Bool => match spec_read_byte(data, pos) {
            Result::Err(e) => Result::Err(e),
            Result::Ok((b, p)) => if b == 0 {
                Result::Ok((PrimitiveModel::Bool(false), p))
            } else if b == 1 {
                Result::Ok((PrimitiveModel::Bool(true), p))
            } else {
                Result::Err(DecodeError::InvalidBool { byte: b })
            },
        },
        PrimitiveKind::Char => match spec_read_bytes(data, pos, 4) {
            Result::Err(e) => Result::Err(e),
            Result::Ok((bs, p)) => {
                let c = spec_le_value(bs) as u32;
                if is_scalar(c) {
                    Result::Ok((PrimitiveModel::Char(c as char), p))
                } else {
                    Result::Err(DecodeError::InvalidChar { code_point: c })
                }
            },
        },
        PrimitiveKind::Str => match spec_compact_u32(data, pos) {
            Result::Err(e) => Result::Err(e),
            Result::Ok((n, p)) => match spec_read_bytes(data, p, n as int) {
                Result::Err(e) => Result::Err(e),
                Result::Ok((bs, p2)) => if valid_utf8(bs) {
                    Result::Ok((PrimitiveModel::Str(decode_utf8(bs)), p2))
                } else {
                    Result::Err(DecodeError::InvalidUtf8 { offset: p as u64 })
                },
            },
        },
        PrimitiveKind::U8 => match spec_read_byte(data, pos) {
            Result::Err(e) => Result::Err(e),
            Result::Ok((b, p)) => Result::Ok((PrimitiveModel::U8(b), p)),
        },
        PrimitiveKind::U16 => match spec_read_bytes(data, pos, 2) {
            Result::Err(e) => Result::Err(e),
            Result::Ok((bs, p)) => Result::Ok((PrimitiveModel::U16(spec_le_value(bs) as u16), p)),
        },
        PrimitiveKind::U32 => match spec_read_bytes(data, pos, 4) {
            Result::Err(e) => Result::Err(e),
            Result::Ok((bs, p)) => Result::Ok((PrimitiveModel::U32(spec_le_value(bs) as u32), p)),
        },
        PrimitiveKind::U64 => match spec_read_bytes(data, pos, 8) {
            Result::Err(e) => Result::Err(e),
            Result::Ok((bs, p)) => Result::Ok((PrimitiveModel::U64(spec_le_value(bs) as u64), p)),
        },
        PrimitiveKind::U128 => match spec_read_bytes(data, pos, 16) {
            Result::Err(e) => Result::Err(e),
            Result::Ok((bs, p)) => Result::Ok(
                (PrimitiveModel::U128(spec_le_value(bs) as u128), p),
            ),
        },
        PrimitiveKind::U256 => match spec_read_bytes(data, pos, 32) {
            Result::Err(e) => Result::Err(e),
            Result::Ok((bs, p)) => Result::Ok((PrimitiveModel::U256(bs), p)),
        },
        PrimitiveKind::I8 => match spec_read_byte(data, pos) {
            Result::Err(e) => Result::Err(e),
            Result::Ok((b, p)) => Result::Ok(
                (PrimitiveModel::I8(spec_to_signed(b as nat, 1) as i8), p),
            ),
        },
        PrimitiveKind::I16 => match spec_read_bytes(data, pos, 2) {
            Result::Err(e) => Result::Err(e),
            Result::Ok((bs, p)) => Result::Ok(
                (PrimitiveModel::I16(spec_to_signed(spec_le_value(bs), 2) as i16), p),
            ),
        },
        PrimitiveKind::I32 => match spec_read_bytes(data, pos, 4) {
            Result::Err(e) => Result::Err(e),
            Result::Ok((bs, p)) => Result::Ok(
                (PrimitiveModel::I32(spec_to_signed(spec_le_value(bs), 4) as i32), p),
            ),
        },
        PrimitiveKind::I64 => match spec_read_bytes(data, pos, 8) {
            Result::Err(e) => Result::Err(e),
            Result::Ok((bs, p)) => Result::Ok(
                (PrimitiveModel::I64(spec_to_signed(spec_le_value(bs), 8) as i64), p),
            ),
        },
        PrimitiveKind::I128 => match spec_read_bytes(data, pos, 16) {
            Result::Err(e) => Result::Err(e),
            Result::Ok((bs, p)) => Result::Ok(
                (PrimitiveModel::I128(spec_to_signed(spec_le_value(bs), 16) as i128), p),
            ),
        },
        PrimitiveKind::I256 => match spec_read_bytes(data, pos, 32) {
            Result::Err(e) => Result::Err(e),
            Result::Ok((bs, p)) => Result::Ok((PrimitiveModel::I256(bs), p)),
        },
    }
}

/// The bit at global bit index `g` of a little-endian byte run.
pub open spec fn spec_bit_at(bs: Seq<u8>, g: int) -> bool {
    ((bs[g / 8] >> ((g % 8) as u8)) & 1) == 1
}

/// The global bit index the `i`th bit of a bit sequence is stored at, for
/// word width `width` and most-significant-bit-first order when `msb`.
pub open spec fn spec_bit_index(i: int, width: int, msb: bool) -> int {
    if msb {
        (i / width) * width + (width - 1 - (i % width))
    } else {
        i
    }
}

/// A bit sequence: compact bit count, then the least number of storage words
/// holding that many bits.
pub open spec fn spec_decode_bitseq(
    reg: RegistryModel,
    store: u32,
    order: u32,
    data: Seq<u8>,
    pos: int,
) -> Result<(ValueModel, int), DecodeError> {
    match reg_resolve(reg, store) {
        Option::None => Result::Err(DecodeError::TypeNotFound { id: store }),
        Option::Some(se) => {
            let width: int = match se.def {
                TypeDefModel::Primitive { kind } => match kind {
                    PrimitiveKind::U8 => 8,
                    PrimitiveKind::U16 => 16,
                    PrimitiveKind::U32 => 32,
                    PrimitiveKind::U64 => 64,
                    _ => 0,
                },
                _ => 0,
            };
            if width == 0 {
                Result::Err(
                    DecodeError::UnsupportedTypeDefinition { kind: TypeDefKind::BitSequence },
                )
            } else {
                match reg_resolve(reg, order) {
                    Option::None => Result::Err(DecodeError::TypeNotFound { id: order }),
                    Option::Some(oe) => {
                        let is_lsb = oe.path.len() > 0 && oe.path.last() == "Lsb0"@;
                        let is_msb = oe.path.len() > 0 && oe.path.last() == "Msb0"@;
                        if !is_lsb && !is_msb {
                            Result::Err(
                                DecodeError::UnsupportedTypeDefinition {
                                    kind: TypeDefKind::BitSequence,
                                },
                            )
                        } else {
                            match spec_compact_u32(data, pos) {
                                Result::Err(e) => Result::Err(e),
                                Result::Ok((b, p2)) => {
                                    let nw = (b + width - 1) / width;
                                    let total = nw * (width / 8);
                                    match spec_read_bytes(data, p2, total) {
                                        Result::Err(e) => Result::Err(e),
                                        Result::Ok((bs, p3)) => Result::Ok(
                                            (
                                                ValueModel::BitSequence(
                                                    Seq::new(
                                                        b as nat,
                                                        |i: int| spec_bit_at(
                                                            bs,
                                                            spec_bit_index(i, width, is_msb),
                                                        ),
                                                    ),
                                                ),
                                                p3,
                                            ),
                                        ),
                                    }
                                },
                            }
                        }
                    },
                }
            }
        },
    }
}

/// One value of type `ty` at `pos`: the complete mathematical mirror of the
/// decoder.  `Ok` carries the value's model and the position after it; `Err`
/// carries exactly the error the decoder raises.
pub open spec fn spec_decode_value(
    reg: RegistryModel,
    ty: u32,
    data: Seq<u8>,
    pos: int,
    fuel: nat,
) -> Result<(ValueModel, int), DecodeError>
    decreases fuel, 0nat,
{
    if fuel == 0 {
        Result::Err(DecodeError::RecursionLimit { type_id: ty, offset: pos as u64 })
    } else {
        match reg_resolve(reg, ty) {
            Option::None => Result::Err(DecodeError::TypeNotFound { id: ty }),
            Option::Some(entry) => match entry.def {
                TypeDefModel::Composite { fields } => match spec_decode_fields(
                    reg,
                    fields,
                    0,
                    data,
                    pos,
                    (fuel - 1) as nat,
                ) {
                    Result::Err(e) => Result::Err(e),
                    Result::Ok((vms, p)) => Result::Ok(
                        (ValueModel::Composite(spec_mk_composite(fields, vms)), p),
                    ),
                },
                TypeDefModel::Variant { variants } => match spec_read_byte(data, pos) {
                    Result::Err(e) => Result::Err(e),
                    Result::Ok((d, p1)) => match spec_find_variant(variants, d) {
                        Option::None => Result::Err(
                            DecodeError::VariantNotFound { type_id: ty, discriminant: d },
                        ),
                        Option::Some(vd) => match spec_decode_fields(
                            reg,
                            vd.fields,
                            0,
                            data,
                            p1,
                            (fuel - 1) as nat,
                        ) {
                            Result::Err(e) => Result::Err(e),
                            Result::Ok((vms, p2)) => Result::Ok(
                                (
                                    ValueModel::Variant(
                                        VariantModel {
                                            name: vd.name,
                                            values: spec_mk_composite(vd.fields, vms),
                                        },
                                    ),
                                    p2,
                                ),
                            ),
                        },
                    },
                },
                TypeDefModel::Sequence { element } => match spec_compact_u32(data, pos) {
                    Result::Err(e) => Result::Err(e),
                    Result::Ok((n, p1)) => match spec_decode_many(
                        reg,
                        element,
                        n as int,
                        data,
                        p1,
                        (fuel - 1) as nat,
                    ) {
                        Result::Err(e) => Result::Err(e),
                        Result::Ok((vms, p2)) => Result::Ok(
                            (ValueModel::Composite(CompositeModel::Unnamed(vms)), p2),
                        ),
                    },
                },
                TypeDefModel::Array { len, element } => match spec_decode_many(
                    reg,
                    element,
                    len as int,
                    data,
                    pos,
                    (fuel - 1) as nat,
                ) {
                    Result::Err(e) => Result::Err(e),
                    Result::Ok((vms, p)) => Result::Ok((ValueModel::Sequence(vms), p)),
                },
                TypeDefModel::Tuple { elements } => match spec_decode_ids(
                    reg,
                    elements,
                    0,
                    data,
                    pos,
                    (fuel - 1) as nat,
                ) {
                    Result::Err(e) => Result::Err(e),
                    Result::Ok((vms, p)) => Result::Ok(
                        (ValueModel::Composite(CompositeModel::Unnamed(vms)), p),
                    ),
                },
                TypeDefModel::Primitive { kind } => match spec_decode_primitive(
                    kind,
                    data,
                    pos,
                ) {
                    Result::Err(e) => Result::Err(e),
                    Result::Ok((pm, p)) => Result::Ok((ValueModel::Primitive(pm), p)),
                },
                TypeDefModel::Compact { inner } => match spec_peel(
                    reg,
                    inner,
                    pos,
                    (fuel - 1) as nat,
                ) {
                    Result::Err(e) => Result::Err(e),
                    Result::Ok((layers, kind)) => match spec_decode_compact_prim(
                        kind,
                        data,
                        pos,
                    ) {
                        Result::Err(e) => Result::Err(e),
                        Result::Ok((pm, p)) => Result::Ok(
                            (spec_wrap(layers, ValueModel::Primitive(pm)), p),
                        ),
                    },
                },
                TypeDefModel::BitSequence { store, order } => spec_decode_bitseq(
                    reg,
                    store,
                    order,
                    data,
                    pos,
                ),
            },
        }
    }
}

/// The values of the fields from index `i` on, decoded in declaration order.
pub open spec fn spec_decode_fields(
    reg: RegistryModel,
    fields: Seq<FieldModel>,
    i: int,
    data: Seq<u8>,
    pos: int,
    fuel: nat,
) -> Result<(Seq<ValueModel>, int), DecodeError>
    decreases fuel, (if i < fields.len() { fields.len() - i + 1 } else { 1int }),
{
    if i < 0 || i >= fields.len() {
        Result::Ok((Seq::empty(), pos))
    } else {
        match spec_decode_value(reg, fields[i].ty, data, pos, fuel) {
            Result::Err(e) => Result::Err(e),
            Result::Ok((vm, p)) => match spec_decode_fields(reg, fields, i + 1, data, p, fuel) {
                Result::Err(e) => Result::Err(e),
                Result::Ok((vms, p2)) => Result::Ok((seq![vm] + vms, p2)),
            },
        }
    }
}

/// `n` values of one element type, decoded in order.
pub open spec fn spec_decode_many(
    reg: RegistryModel,
    element: u32,
    n: int,
    data: Seq<u8>,
    pos: int,
    fuel: nat,
) -> Result<(Seq<ValueModel>, int), DecodeError>
    decreases fuel, (if n > 0 { n + 1 } else { 1int }),
{
    if n <= 0 {
        Result::Ok((Seq::empty(), pos))
    } else {
        match spec_decode_value(reg, element, data, pos, fuel) {
            Result::Err(e) => Result::Err(e),
            Result::Ok((vm, p)) => match spec_decode_many(reg, element, n - 1, data, p, fuel) {
                Result::Err(e) => Result::Err(e),
                Result::Ok((vms, p2)) => Result::Ok((seq![vm] + vms, p2)),
            },
        }
    }
}

/// The values of the tuple elements from index `i` on, decoded in order.
pub open spec fn spec_decode_ids(
    reg: RegistryModel,
    elements: Seq<u32>,
    i: int,
    data: Seq<u8>,
    pos: int,
    fuel: nat,
) -> Result<(Seq<ValueModel>, int), DecodeError>
    decreases fuel, (if i < elements.len() { elements.len() - i + 1 } else { 1int }),
{
    if i < 0 || i >= elements.len() {
        Result::Ok((Seq::empty(), pos))
    } else {
        match spec_decode_value(reg, elements[i], data, pos, fuel) {
            Result::Err(e) => Result::Err(e),
            Result::Ok((vm, p)) => match spec_decode_ids(reg, elements, i + 1, data, p, fuel) {
                Result::Err(e) => Result::Err(e),
                Result::Ok((vms, p2)) => Result::Ok((seq![vm] + vms, p2)),
            },
        }
    }
}

/// Relies on `String::from_utf8`: it succeeds exactly on valid UTF-8 input
/// and returns the string those bytes encode.
#[verifier::external_body]
pub(crate) fn string_from_utf8(bytes: Vec<u8>) -> (r: Option<String>)
    ensures
        r is Some <==> valid_utf8(bytes@),
        r matches Option::Some(s) ==> s@ == decode_utf8(bytes@),
{
    match String::from_utf8(bytes) {
        Ok(s) => Option::Some(s),
        Err(_) => Option::None,
    }
}

/// Relies on `char::from_u32`: it returns `Some` exactly for Unicode scalar
/// values, and the returned character is that code point.
#[verifier::external_body]
pub(crate) fn char_from_u32(v: u32) -> (r: Option<char>)
    ensures
        r is Some <==> is_scalar(v),
        r matches Option::Some(c) ==> c == v as char,
{
    char::from_u32(v)
}

/// The first variant carrying discriminant `d`, if any.
fn find_variant<'v>(variants: &'v Vec<VariantDef>, d: u8) -> (r: Option<&'v VariantDef>)
    ensures
        match r {
            Option::Some(vd) => spec_find_variant(variants_model(variants@), d)
                == Option::Some(variant_def_model(*vd)),
            Option::None => spec_find_variant(variants_model(variants@), d) is None,
        },
{
    let n: usize = variants.len();
    let mut i: usize = 0;
    proof {
        assert(variants_model(variants@).subrange(0, n as int) =~= variants_model(variants@));
    }
    while i < n
        invariant
            0 <= i <= n,
            n == variants.len(),
            spec_find_variant(variants_model(variants@), d) == spec_find_variant(
                variants_model(variants@).subrange(i as int, n as int),
                d,
            ),
        decreases n - i,
    {
        if variants[i].index == d {
            proof {
                let m = variants_model(variants@);
                let tail = m.subrange(i as int, n as int);
                assert(tail[0] == m[i as int]);
            }
            return Option::Some(&variants[i]);
        }
        proof {
            let m = variants_model(variants@);
            let tail = m.subrange(i as int, n as int);
            assert(tail[0] == m[i as int]);
            assert(tail.subrange(1, tail.len() as int) =~= m.subrange(i + 1, n as int));
        }
        i = i + 1;
    }
    proof {
        assert(variants_model(variants@).subrange(n as int, n as int) =~= Seq::empty());
    }
    Option::None
}

/// True when every field carries a name.
fn fields_all_named(fields: &Vec<Field>) -> (r: bool)
    ensures
        r == spec_all_named(fields_model(fields@)),
{
    let n: usize = fields.len();
    let mut i: usize = 0;
    while i < n
        invariant
            0 <= i <= n,
            n == fields.len(),
            forall|j: int| 0 <= j < i ==> fields_model(fields@)[j].name is Some,
        decreases n - i,
    {
        if fields[i].name.is_none() {
            proof {
                assert(fields_model(fields@)[i as int].name is None);
            }
            return false;
        }
        proof {
            assert(fields_model(fields@)[i as int].name is Some);
        }
        i = i + 1;
    }
    true
}

/// The width in bytes of an unsigned integer kind (zero otherwise).
fn unsigned_width(kind: PrimitiveKind) -> (r: usize)
    ensures
        r == spec_unsigned_width(kind),
{
    match kind {
        PrimitiveKind::U8 => 1,
        PrimitiveKind::U16 => 2,
        PrimitiveKind::U32 => 4,
        PrimitiveKind::U64 => 8,
        PrimitiveKind::U128 => 16,
        PrimitiveKind::U256 => 32,
        _ => 0,
    }
}

/// The mirror of a layer list, elementwise.
pub open spec fn layers_model(s: Seq<Option<String>>) -> Seq<Option<Seq<char>>> {
    s.map(
        |i: int, o: Option<String>|
            match o {
                Option::Some(n) => Option::Some(n@),
                Option::None => Option::<Seq<char>>::None,
            },
    )
}

/// Follow single-field composites and one-element tuples from `ty` down to an
/// unsigned integer primitive, recording one layer per wrapper peeled.
fn peel_compact(reg: &PortableRegistry, ty: u32, offset: usize, fuel: u64) -> (r: Result<
    (Vec<Option<String>>, PrimitiveKind),
    DecodeError,
>)
    ensures
        match spec_peel(registry_model(*reg), ty, offset as int, fuel as nat) {
            Result::Ok((layers, kind)) => r matches Result::Ok(p) && layers_model(p.0@) == layers
                && p.1 == kind,
            Result::Err(e) => r matches Result::Err(e2) && e2 == e,
        },
    decreases fuel,
{
    if fuel == 0 {
        return Result::Err(
            DecodeError::RecursionLimit { type_id: ty, offset: offset as u64 },
        );
    }
    let entry = match reg.resolve(TypeId::from_u32(ty)) {
        Option::Some(e) => e,
        Option::None => { return Result::Err(DecodeError::TypeNotFound { id: ty }); },
    };
    match &entry.def {
        TypeDef::Primitive { kind } => {
            if unsigned_width(*kind) != 0 {
                assert(kind.spec_is_unsigned());
                let out: Vec<Option<String>> = Vec::new();
                assert(layers_model(out@) =~= Seq::<Option<Seq<char>>>::empty());
                Result::Ok((out, *kind))
            } else {
                assert(!kind.spec_is_unsigned());
                Result::Err(
                    DecodeError::UnsupportedTypeDefinition { kind: TypeDefKind::Primitive },
                )
            }
        },
        TypeDef::Composite { fields } => {
            if fields.len() == 1 {
                let name: Option<String> = match &fields[0].name {
                    Option::Some(n) => Option::Some(n.clone()),
                    Option::None => Option::None,
                };
                match peel_compact(reg, fields[0].ty.id(), offset, fuel - 1) {
                    Result::Ok((rest, kind)) => {
                        let mut out: Vec<Option<String>> = Vec::new();
                        out.push(name);
                        let mut rest = rest;
                        out.append(&mut rest);
                        proof {
                            let fm = fields_model(fields@);
                            assert(fm[0] == field_model(fields@[0]));
                            assert(layers_model(out@) =~= seq![fm[0].name] + layers_model(
                                out@.subrange(1, out@.len() as int),
                            ));
                        }
                        Result::Ok((out, kind))
                    },
                    Result::Err(e) => Result::Err(e),
                }
            } else {
                Result::Err(
                    DecodeError::UnsupportedTypeDefinition { kind: TypeDefKind::Composite },
                )
            }
        },
        TypeDef::Tuple { elements } => {
            if elements.len() == 1 {
                match peel_compact(reg, elements[0].id(), offset, fuel - 1) {
                    Result::Ok((rest, kind)) => {
                        let mut out: Vec<Option<String>> = Vec::new();
                        out.push(Option::None);
                        let mut rest = rest;
                        out.append(&mut rest);
                        proof {
                            assert(ids_model(elements@)[0] == elements@[0].spec_id());
                            assert(layers_model(out@) =~= seq![Option::<Seq<char>>::None]
                                + layers_model(out@.subrange(1, out@.len() as int)));
                        }
                        Result::Ok((out, kind))
                    },
                    Result::Err(e) => Result::Err(e),
                }
            } else {
                Result::Err(
                    DecodeError::UnsupportedTypeDefinition { kind: TypeDefKind::Tuple },
                )
            }
        },
        _ => Result::Err(DecodeError::UnsupportedTypeDefinition { kind: entry.def.kind() }),
    }
}

/// Unfolds `pow256` far enough to know the widths used below.
proof fn lemma_pow256_values()
    ensures
        pow256(1) == 0x100,
        pow256(2) == 0x10000,
        pow256(4) == 0x100000000,
        pow256(8) == 0x10000000000000000,
        pow256(16) == 0x100000000000000000000000000000000,
{
    reveal_with_fuel(pow256, 17);
}

/// The signed reading of a one-byte value.
fn to_i8(v: u128) -> (r: i8)
    requires
        v < 0x100,
    ensures
        r as int == spec_to_signed(v as nat, 1),
{
    proof {
        lemma_pow256_values();
    }
    if v < 0x80 {
        v as i8
    } else {
        ((v as i32) - 0x100) as i8
    }
}

/// The signed reading of a two-byte value.
fn to_i16(v: u128) -> (r: i16)
    requires
        v < 0x10000,
    ensures
        r as int == spec_to_signed(v as nat, 2),
{
    proof {
        lemma_pow256_values();
    }
    if v < 0x8000 {
        v as i16
    } else {
        ((v as i32) - 0x10000) as i16
    }
}

/// The signed reading of a four-byte value.
fn to_i32(v: u128) -> (r: i32)
    requires
        v < 0x100000000,
    ensures
        r as int == spec_to_signed(v as nat, 4),
{
    proof {
        lemma_pow256_values();
    }
    if v < 0x80000000 {
        v as i32
    } else {
        ((v as i64) - 0x100000000) as i32
    }
}

/// The signed reading of an eight-byte value.
fn to_i64(v: u128) -> (r: i64)
    requires
        v < 0x10000000000000000,
    ensures
        r as int == spec_to_signed(v as nat, 8),
{
    proof {
        lemma_pow256_values();
    }
    if v < 0x8000000000000000 {
        v as i64
    } else {
        ((v as i128) - 0x10000000000000000) as i64
    }
}

/// The signed reading of a sixteen-byte value.
fn to_i128(v: u128) -> (r: i128)
    ensures
        r as int == spec_to_signed(v as nat, 16),
{
    proof {
        lemma_pow256_values();
    }
    if v < 0x80000000000000000000000000000000 {
        v as i128
    } else {
        let w: u128 = u128::MAX - v;
        -1 - (w as i128)
    }
}

/// Read a compact-encoded unsigned primitive of the given kind.
fn decode_compact_prim(kind: PrimitiveKind, cursor: &mut ByteCursor) -> (r: Result<
    Primitive,
    DecodeError,
>)
    requires
        old(cursor).wf(),
        spec_unsigned_width(kind) != 0,
    ensures
        final(cursor).wf(),
        final(cursor).spec_data() == old(cursor).spec_data(),
        match spec_decode_compact_prim(kind, old(cursor).spec_data(), old(cursor).spec_pos()) {
            Result::Ok((pm, p)) => r matches Result::Ok(pr) && primitive_model(pr) == pm
                && final(cursor).spec_pos() == p,
            Result::Err(e) => r matches Result::Err(e2) && e2 == e,
        },
{
    let pl = match cursor.read_compact_biguint() {
        Result::Ok(pl) => pl,
        Result::Err(e) => { return Result::Err(e); },
    };
    let w = unsigned_width(kind);
    if !compact_fits(&pl, w) {
        return Result::Err(
            DecodeError::CompactOverflow { declared_width: w as u8, value_bytes: pl.len() as u8 },
        );
    }
    proof {
        lemma_pow256_values();
        if pl@.len() <= w as int {
            lemma_le_value_bound(pl@);
            lemma_pow256_le(pl@.len(), w as nat);
        } else {
            lemma_le_value_bound(pl@.subrange(0, w as int));
        }
    }
    match kind {
        PrimitiveKind::U8 => {
            let v = le_value_prefix(&pl, 1);
            Result::Ok(Primitive::U8(v as u8))
        },
        PrimitiveKind::U16 => {
            let v = le_value_prefix(&pl, 2);
            Result::Ok(Primitive::U16(v as u16))
        },
        PrimitiveKind::U32 => {
            let v = le_value_prefix(&pl, 4);
            Result::Ok(Primitive::U32(v as u32))
        },
        PrimitiveKind::U64 => {
            let v = le_value_prefix(&pl, 8);
            Result::Ok(Primitive::U64(v as u64))
        },
        PrimitiveKind::U128 => {
            let v = le_value_prefix(&pl, 16);
            Result::Ok(Primitive::U128(v as u128))
        },
        _ => {
            let mut arr: [u8; 32] = [0u8; 32];
            let m: usize = if pl.len() <= 32 {
                pl.len()
            } else {
                32
            };
            let mut i: usize = 0;
            while i < m
                invariant
                    0 <= i <= m,
                    m <= 32,
                    m <= pl.len(),
                    forall|j: int| 0 <= j < i ==> arr@[j] == pl@[j],
                    forall|j: int| i <= j < 32 ==> arr@[j] == 0u8,
                decreases m - i,
            {
                arr[i] = pl[i];
                i = i + 1;
            }
            proof {
                assert(arr@ =~= spec_pad(pl@, 32));
            }
            Result::Ok(Primitive::U256(arr))
        },
    }
}

/// Read a primitive value of the given kind.
fn decode_primitive(kind: PrimitiveKind, cursor: &mut ByteCursor) -> (r: Result<
    Primitive,
    DecodeError,
>)
    requires
        old(cursor).wf(),
    ensures
        final(cursor).wf(),
        final(cursor).spec_data() == old(cursor).spec_data(),
        match spec_decode_primitive(kind, old(cursor).spec_data(), old(cursor).spec_pos()) {
            Result::Ok((pm, p)) => r matches Result::Ok(pr) && primitive_model(pr) == pm
                && final(cursor).spec_pos() == p,
            Result::Err(e) => r matches Result::Err(e2) && e2 == e,
        },
{
    proof {
        lemma_pow256_values();
    }
    match kind {
        PrimitiveKind::Bool => {
            let b = match cursor.read_byte() {
                Result::Ok(b) => b,
                Result::Err(e) => { return Result::Err(e); },
            };
            if b == 0 {
                Result::Ok(Primitive::Bool(false))
            } else if b == 1 {
                Result::Ok(Primitive::Bool(true))
            } else {
                Result::Err(DecodeError::InvalidBool { byte: b })
            }
        },
        PrimitiveKind::Char => {
            let bs = match cursor.read_fixed(4) {
                Result::Ok(bs) => bs,
                Result::Err(e) => { return Result::Err(e); },
            };
            proof {
                lemma_le_value_bound(bs@);
            }
            let c = le_value_prefix(&bs, 4) as u32;
            match char_from_u32(c) {
                Option::Some(ch) => Result::Ok(Primitive::Char(ch)),
                Option::None => Result::Err(DecodeError::InvalidChar { code_point: c }),
            }
        },
        PrimitiveKind::Str => {
            let n = match cursor.read_compact_u32() {
                Result::Ok(n) => n,
                Result::Err(e) => { return Result::Err(e); },
            };
            let strpos: usize = cursor.offset();
            let bs = match cursor.read_fixed(n as usize) {
                Result::Ok(bs) => bs,
                Result::Err(e) => { return Result::Err(e); },
            };
            match string_from_utf8(bs) {
                Option::Some(s) => Result::Ok(Primitive::Str(s)),
                Option::None => Result::Err(DecodeError::InvalidUtf8 { offset: strpos as u64 }),
            }
        },
        PrimitiveKind::U8 => {
            let b = match cursor.read_byte() {
                Result::Ok(b) => b,
                Result::Err(e) => { return Result::Err(e); },
            };
            Result::Ok(Primitive::U8(b))
        },
        PrimitiveKind::U16 => {
            let bs = match cursor.read_fixed(2) {
                Result::Ok(bs) => bs,
                Result::Err(e) => { return Result::Err(e); },
            };
            proof {
                lemma_le_value_bound(bs@);
            }
            Result::Ok(Primitive::U16(le_value_prefix(&bs, 2) as u16))
        },
        PrimitiveKind::U32 => {
            let bs = match cursor.read_fixed(4) {
                Result::Ok(bs) => bs,
                Result::Err(e) => { return Result::Err(e); },
            };
            proof {
                lemma_le_value_bound(bs@);
            }
            Result::Ok(Primitive::U32(le_value_prefix(&bs, 4) as u32))
        },
        PrimitiveKind::U64 => {
            let bs = match cursor.read_fixed(8) {
                Result::Ok(bs) => bs,
                Result::Err(e) => { return Result::Err(e); },
            };
            proof {
                lemma_le_value_bound(bs@);
            }
            Result::Ok(Primitive::U64(le_value_prefix(&bs, 8) as u64))
        },
        PrimitiveKind::U128 => {
            let bs = match cursor.read_fixed(16) {
                Result::Ok(bs) => bs,
                Result::Err(e) => { return Result::Err(e); },
            };
            proof {
                lemma_le_value_bound(bs@);
            }
            Result::Ok(Primitive::U128(le_value_prefix(&bs, 16) as u128))
        },
        PrimitiveKind::U256 => {
            let bs = match cursor.read_fixed(32) {
                Result::Ok(bs) => bs,
                Result::Err(e) => { return Result::Err(e); },
            };
            let arr = bytes32(&bs);
            Result::Ok(Primitive::U256(arr))
        },
        PrimitiveKind::I8 => {
            let b = match cursor.read_byte() {
                Result::Ok(b) => b,
                Result::Err(e) => { return Result::Err(e); },
            };
            Result::Ok(Primitive::I8(to_i8(b as u128)))
        },
        PrimitiveKind::I16 => {
            let bs = match cursor.read_fixed(2) {
                Result::Ok(bs) => bs,
                Result::Err(e) => { return Result::Err(e); },
            };
            proof {
                lemma_le_value_bound(bs@);
            }
            Result::Ok(Primitive::I16(to_i16(le_value_prefix(&bs, 2))))
        },
        PrimitiveKind::I32 => {
            let bs = match cursor.read_fixed(4) {
                Result::Ok(bs) => bs,
                Result::Err(e) => { return Result::Err(e); },
            };
            proof {
                lemma_le_value_bound(bs@);
            }
            Result::Ok(Primitive::I32(to_i32(le_value_prefix(&bs, 4))))
        },
        PrimitiveKind::I64 => {
            let bs = match cursor.read_fixed(8) {
                Result::Ok(bs) => bs,
                Result::Err(e) => { return Result::Err(e); },
            };
            proof {
                lemma_le_value_bound(bs@);
            }
            Result::Ok(Primitive::I64(to_i64(le_value_prefix(&bs, 8))))
        },
        PrimitiveKind::I128 => {
            let bs = match cursor.read_fixed(16) {
                Result::Ok(bs) => bs,
                Result::Err(e) => { return Result::Err(e); },
            };
            proof {
                lemma_le_value_bound(bs@);
            }
            Result::Ok(Primitive::I128(to_i128(le_value_prefix(&bs, 16))))
        },
        PrimitiveKind::I256 => {
            let bs = match cursor.read_fixed(32) {
                Result::Ok(bs) => bs,
                Result::Err(e) => { return Result::Err(e); },
            };
            let arr = bytes32(&bs);
            Result::Ok(Primitive::I256(arr))
        },
    }
}

/// Read a bit sequence: a compact bit count, then the least number of
/// storage words that holds that many bits, in the declared bit order.
#[verifier::rlimit(60)]
fn decode_bitseq(reg: &PortableRegistry, store: u32, order: u32, cursor: &mut ByteCursor) -> (r:
    Result<Value, DecodeError>)
    requires
        old(cursor).wf(),
    ensures
        final(cursor).wf(),
        final(cursor).spec_data() == old(cursor).spec_data(),
        match spec_decode_bitseq(
            registry_model(*reg),
            store,
            order,
            old(cursor).spec_data(),
            old(cursor).spec_pos(),
        ) {
            Result::Ok((vm, p)) => r matches Result::Ok(v) && value_model(v) == vm
                && final(cursor).spec_pos() == p,
            Result::Err(e) => r matches Result::Err(e2) && e2 == e,
        },
{
    let se = match reg.resolve(TypeId::from_u32(store)) {
        Option::Some(e) => e,
        Option::None => { return Result::Err(DecodeError::TypeNotFound { id: store }); },
    };
    let width: u64 = match &se.def {
        TypeDef::Primitive { kind } => match kind {
            PrimitiveKind::U8 => 8,
            PrimitiveKind::U16 => 16,
            PrimitiveKind::U32 => 32,
            PrimitiveKind::U64 => 64,
            _ => 0,
        },
        _ => 0,
    };
    if width == 0 {
        return Result::Err(
            DecodeError::UnsupportedTypeDefinition { kind: TypeDefKind::BitSequence },
        );
    }
    let oe = match reg.resolve(TypeId::from_u32(order)) {
        Option::Some(e) => e,
        Option::None => { return Result::Err(DecodeError::TypeNotFound { id: order }); },
    };
    let plen: usize = oe.path.len();
    let mut is_lsb = false;
    let mut is_msb = false;
    if plen > 0 {
        let lsb_name: String = "Lsb0".to_owned();
        let msb_name: String = "Msb0".to_owned();
        is_lsb = oe.path[plen - 1] == lsb_name;
        is_msb = oe.path[plen - 1] == msb_name;
        proof {
            let pm = portable_type_model(*oe);
            assert(pm.path[plen - 1] == oe.path@[plen - 1]@);
            assert(pm.path.last() == pm.path[plen - 1]);
        }
    }
    if !is_lsb && !is_msb {
        return Result::Err(
            DecodeError::UnsupportedTypeDefinition { kind: TypeDefKind::BitSequence },
        );
    }
    let b = match cursor.read_compact_u32() {
        Result::Ok(b) => b,
        Result::Err(e) => { return Result::Err(e); },
    };
    let nw: u64 = (b as u64 + width - 1) / width;
    let wb: u64 = width / 8;
    proof {
        assert(nw <= b as u64 + width - 1) by (nonlinear_arith)
            requires
                nw == (b as u64 + width - 1) as int / width as int,
                width >= 8,
                b as u64 + width - 1 >= 0,
        ;
    }
    proof {
        assert((nw as int) * (wb as int) <= 0x880000240) by (nonlinear_arith)
            requires
                0 <= nw as int <= 0x10000003f,
                0 <= wb as int <= 8,
        ;
    }
    let total: u64 = nw * wb;
    let ghost widthi = width as int;
    let ghost nwi = nw as int;
    let ghost totali = total as int;
    proof {
        vstd::arithmetic::div_mod::lemma_fundamental_div_mod(b as int + widthi - 1, widthi);
        assert(b as int <= nwi * widthi) by (nonlinear_arith)
            requires
                b as int + widthi - 1 == widthi * nwi + ((b as int + widthi - 1) % widthi),
                0 <= (b as int + widthi - 1) % widthi < widthi,
        ;
        assert(8 * (wb as int) == widthi);
        assert(8 * totali == nwi * widthi) by (nonlinear_arith)
            requires
                totali == nwi * (wb as int),
                8 * (wb as int) == widthi,
        ;
    }
    let rem = cursor.remaining();
    if total > rem as u64 {
        return Result::Err(
            DecodeError::UnexpectedEof {
                need: total,
                have: rem as u64,
                offset: cursor.offset() as u64,
            },
        );
    }
    let ghost p2 = cursor.spec_pos();
    let bs = match cursor.read_fixed(total as usize) {
        Result::Ok(bs) => bs,
        Result::Err(e) => {
            // unreachable: the remaining length was checked just above
            proof {
                assert(false);
            }
            return Result::Err(e);
        },
    };
    let ghost specbits = Seq::new(
        b as nat,
        |i: int| spec_bit_at(bs@, spec_bit_index(i, widthi, is_msb)),
    );
    let mut bits: Vec<bool> = Vec::new();
    let mut i: u32 = 0;
    while i < b
        invariant
            0 <= i <= b,
            bs@.len() == totali,
            8 * totali == nwi * widthi,
            b as int <= nwi * widthi,
            widthi >= 8,
            widthi <= 64,
            nwi <= 0x10000003f,
            width as int == widthi,
            nw as int == nwi,
            total as int == totali,
            specbits == Seq::new(
                b as nat,
                |k: int| spec_bit_at(bs@, spec_bit_index(k, widthi, is_msb)),
            ),
            bits@.len() == i as int,
            forall|k: int| 0 <= k < i ==> bits@[k] == specbits[k],
        decreases b - i,
    {
        let g: u64 = if is_msb {
            let q: u64 = i as u64 / width;
            let r: u64 = i as u64 % width;
            proof {
                vstd::arithmetic::div_mod::lemma_fundamental_div_mod(i as int, widthi);
                let ii = i as int;
                let bb = b as int;
                let qi = q as int;
                let ri = r as int;
                assert(qi < nwi) by (nonlinear_arith)
                    requires
                        ii == widthi * qi + ri,
                        0 <= ri,
                        ri < widthi,
                        ii < bb,
                        bb <= nwi * widthi,
                        widthi > 0,
                ;
                assert(qi * widthi + (widthi - 1) < nwi * widthi) by (nonlinear_arith)
                    requires
                        qi < nwi,
                        widthi > 0,
                ;
                assert(qi * widthi + (widthi - 1) <= 0x4000010000) by (nonlinear_arith)
                    requires
                        0 <= qi < nwi,
                        nwi <= 0x10000003f,
                        8 <= widthi <= 64,
                ;
            }
            q * width + (width - 1 - r)
        } else {
            i as u64
        };
        proof {
            assert(g as int == spec_bit_index(i as int, widthi, is_msb));
            assert(g < 8 * totali);
            assert((g as int) / 8 < totali) by (nonlinear_arith)
                requires
                    (g as int) < 8 * totali,
                    g >= 0,
            ;
        }
        let byte: u8 = bs[(g / 8) as usize];
        let sh: u8 = (g % 8) as u8;
        let bit: bool = ((byte >> sh) & 1) == 1;
        proof {
            assert(byte == bs@[g as int / 8]);
            assert(sh == (g as int % 8) as u8);
            assert(bit == spec_bit_at(bs@, g as int));
            assert(specbits[i as int] == spec_bit_at(bs@, spec_bit_index(i as int, widthi, is_msb)));
        }
        bits.push(bit);
        i = i + 1;
    }
    proof {
        assert(bits@ =~= specbits);
    }
    Result::Ok(Value::BitSequence(bits))
}

/// The names of the fields from `i` on, paired with the decoded values.
pub open spec fn spec_zip_from(fields: Seq<FieldModel>, i: int, vms: Seq<ValueModel>) -> Seq<
    (Seq<char>, ValueModel),
> {
    Seq::new(vms.len(), |j: int| (fields[i + j].name.unwrap(), vms[j]))
}

/// Decode one value of type `ty` from the cursor, within `fuel` nesting
/// levels.  The result — value, final position or error — is exactly
/// [`spec_decode_value`] of the input.
pub fn decode_value(reg: &PortableRegistry, ty: u32, cursor: &mut ByteCursor, fuel: u64) -> (r:
    Result<Value, DecodeError>)
    requires
        old(cursor).wf(),
    ensures
        final(cursor).wf(),
        final(cursor).spec_data() == old(cursor).spec_data(),
        match spec_decode_value(
            registry_model(*reg),
            ty,
            old(cursor).spec_data(),
            old(cursor).spec_pos(),
            fuel as nat,
        ) {
            Result::Ok((vm, p)) => r matches Result::Ok(v) && value_model(v) == vm
                && final(cursor).spec_pos() == p,
            Result::Err(e) => r matches Result::Err(e2) && e2 == e,
        },
    decreases fuel, 0int,
{
    if fuel == 0 {
        return Result::Err(
            DecodeError::RecursionLimit { type_id: ty, offset: cursor.offset() as u64 },
        );
    }
    let ghost regm = registry_model(*reg);
    let entry = match reg.resolve(TypeId::from_u32(ty)) {
        Option::Some(e) => e,
        Option::None => { return Result::Err(DecodeError::TypeNotFound { id: ty }); },
    };
    match &entry.def {
        TypeDef::Composite { fields } => {
            let c = decode_composite(reg, fields, cursor, fuel - 1)?;
            Result::Ok(Value::Composite(c))
        },
        TypeDef::Variant { variants } => {
            let d = match cursor.read_byte() {
                Result::Ok(d) => d,
                Result::Err(e) => { return Result::Err(e); },
            };
            let vd = match find_variant(variants, d) {
                Option::Some(vd) => vd,
                Option::None => {
                    return Result::Err(
                        DecodeError::VariantNotFound { type_id: ty, discriminant: d },
                    );
                },
            };
            let name = vd.name.clone();
            let c = decode_composite(reg, &vd.fields, cursor, fuel - 1)?;
            Result::Ok(Value::Variant(Variant { name, values: c }))
        },
        TypeDef::Sequence { element } => {
            let n = match cursor.read_compact_u32() {
                Result::Ok(n) => n,
                Result::Err(e) => { return Result::Err(e); },
            };
            let mut vals: Vec<Value> = Vec::new();
            match decode_many_into(reg, element.id(), n, cursor, fuel - 1, &mut vals) {
                Result::Ok(u) => u,
                Result::Err(e) => { return Result::Err(e); },
            }
            proof {
                assert(values_model(Seq::<Value>::empty()) =~= Seq::<ValueModel>::empty());
            }
            Result::Ok(Value::Composite(Composite::Unnamed(vals)))
        },
        TypeDef::Array { len, element } => {
            let mut vals: Vec<Value> = Vec::new();
            match decode_many_into(reg, element.id(), *len, cursor, fuel - 1, &mut vals) {
                Result::Ok(u) => u,
                Result::Err(e) => { return Result::Err(e); },
            }
            proof {
                assert(values_model(Seq::<Value>::empty()) =~= Seq::<ValueModel>::empty());
            }
            Result::Ok(Value::Sequence(vals))
        },
        TypeDef::Tuple { elements } => {
            let mut vals: Vec<Value> = Vec::new();
            match decode_ids_into(reg, elements, 0, cursor, fuel - 1, &mut vals) {
                Result::Ok(u) => u,
                Result::Err(e) => { return Result::Err(e); },
            }
            proof {
                assert(values_model(Seq::<Value>::empty()) =~= Seq::<ValueModel>::empty());
            }
            Result::Ok(Value::Composite(Composite::Unnamed(vals)))
        },
        TypeDef::Primitive { kind } => {
            let p = match decode_primitive(*kind, cursor) {
                Result::Ok(p) => p,
                Result::Err(e) => { return Result::Err(e); },
            };
            Result::Ok(Value::Primitive(p))
        },
        TypeDef::Compact { inner } => {
            let off = cursor.offset();
            let (layers, kind) = match peel_compact(reg, inner.id(), off, fuel - 1) {
                Result::Ok(lk) => lk,
                Result::Err(e) => { return Result::Err(e); },
            };
            proof {
                if spec_unsigned_width(kind) == 0 {
                    lemma_peel_unsigned(regm, inner.spec_id(), off as int, (fuel - 1) as nat);
                }
            }
            let prim = match decode_compact_prim(kind, cursor) {
                Result::Ok(p) => p,
                Result::Err(e) => { return Result::Err(e); },
            };
            let mut v = Value::Primitive(prim);
            let mut layers = layers;
            let ghost full_layers = layers@;
            let ghost vm0 = value_model(v);
            while layers.len() > 0
                invariant
                    layers@ == full_layers.subrange(0, layers@.len() as int),
                    layers@.len() <= full_layers.len(),
                    value_model(v) == spec_wrap(
                        layers_model(full_layers).subrange(
                            layers@.len() as int,
                            full_layers.len() as int,
                        ),
                        vm0,
                    ),
                decreases layers@.len(),
            {
                let ghost k = layers@.len() - 1;
                let layer = match layers.pop() {
                    Option::Some(l) => l,
                    Option::None => {
                        // unreachable: the loop guard ensures a layer is left
                        proof {
                            assert(false);
                        }
                        Option::None
                    },
                };
                proof {
                    assert(layers@ =~= full_layers.subrange(0, k));
                    assert(layer == full_layers[k]);
                }
                let inner_v = v;
                match layer {
                    Option::Some(name) => {
                        let mut pv: Vec<(String, Value)> = Vec::new();
                        pv.push((name, inner_v));
                        v = Value::Composite(Composite::Named(pv));
                        proof {
                            let lm = layers_model(full_layers);
                            assert(pairs_model(pv@) =~= seq![
                                (pv@[0].0@, value_model(pv@[0].1)),
                            ]) by {
                                lemma_pairs_model_pointwise(pv@);
                            }
                            assert(lm.subrange(k, full_layers.len() as int)[0] == lm[k]);
                            assert(lm.subrange(k, full_layers.len() as int).subrange(
                                1,
                                lm.subrange(k, full_layers.len() as int).len() as int,
                            ) =~= lm.subrange(k + 1, full_layers.len() as int));
                        }
                    },
                    Option::None => {
                        let mut pv: Vec<Value> = Vec::new();
                        pv.push(inner_v);
                        v = Value::Composite(Composite::Unnamed(pv));
                        proof {
                            let lm = layers_model(full_layers);
                            assert(values_model(pv@) =~= seq![value_model(pv@[0])]) by {
                                lemma_values_model_pointwise(pv@);
                            }
                            assert(lm.subrange(k, full_layers.len() as int)[0] == lm[k]);
                            assert(lm.subrange(k, full_layers.len() as int).subrange(
                                1,
                                lm.subrange(k, full_layers.len() as int).len() as int,
                            ) =~= lm.subrange(k + 1, full_layers.len() as int));
                        }
                    },
                }
            }
            proof {
                assert(layers_model(full_layers).subrange(0, full_layers.len() as int)
                    =~= layers_model(full_layers));
            }
            Result::Ok(v)
        },
        TypeDef::BitSequence { store, order } => decode_bitseq(
            reg,
            store.id(),
            order.id(),
            cursor,
        ),
    }
}

/// A successful peel ends at an unsigned integer kind.
proof fn lemma_peel_unsigned(reg: RegistryModel, ty: u32, pos: int, fuel: nat)
    ensures
        spec_peel(reg, ty, pos, fuel) matches Result::Ok((layers, kind))
            ==> kind.spec_is_unsigned(),
    decreases fuel,
{
    if fuel > 0 {
        match reg_resolve(reg, ty) {
            Option::Some(entry) => match entry.def {
                TypeDefModel::Composite { fields } => {
                    if fields.len() == 1 {
                        lemma_peel_unsigned(reg, fields[0].ty, pos, (fuel - 1) as nat);
                    }
                },
                TypeDefModel::Tuple { elements } => {
                    if elements.len() == 1 {
                        lemma_peel_unsigned(reg, elements[0], pos, (fuel - 1) as nat);
                    }
                },
                _ => {},
            },
            Option::None => {},
        }
    }
}

/// Decode the fields of a composite or variant as one composite value.
fn decode_composite(reg: &PortableRegistry, fields: &Vec<Field>, cursor: &mut ByteCursor,
    fuel: u64) -> (r: Result<Composite, DecodeError>)
    requires
        old(cursor).wf(),
    ensures
        final(cursor).wf(),
        final(cursor).spec_data() == old(cursor).spec_data(),
        match spec_decode_fields(
            registry_model(*reg),
            fields_model(fields@),
            0,
            old(cursor).spec_data(),
            old(cursor).spec_pos(),
            fuel as nat,
        ) {
            Result::Ok((vms, p)) => r matches Result::Ok(c) && composite_model(c)
                == spec_mk_composite(fields_model(fields@), vms) && final(cursor).spec_pos() == p,
            Result::Err(e) => r matches Result::Err(e2) && e2 == e,
        },
    decreases fuel, fields@.len() + 2,
{
    let ghost fm = fields_model(fields@);
    if fields.len() > 0 && fields_all_named(fields) {
        let mut pairs: Vec<(String, Value)> = Vec::new();
        match decode_fields_named(reg, fields, 0, cursor, fuel, &mut pairs) {
            Result::Ok(u) => u,
            Result::Err(e) => { return Result::Err(e); },
        }
        proof {
            assert(pairs_model(Seq::<(String, Value)>::empty()) =~= Seq::<
                (Seq<char>, ValueModel),
            >::empty());
            match spec_decode_fields(
                registry_model(*reg),
                fm,
                0,
                old(cursor).spec_data(),
                old(cursor).spec_pos(),
                fuel as nat,
            ) {
                Result::Ok((vms, p)) => {
                    assert(pairs_model(pairs@) =~= spec_zip_from(fm, 0, vms));
                    assert(spec_zip_from(fm, 0, vms) =~= Seq::new(
                        vms.len(),
                        |j: int| (fm[j].name.unwrap(), vms[j]),
                    ));
                },
                Result::Err(e) => {},
            }
        }
        Result::Ok(Composite::Named(pairs))
    } else {
        let mut vals: Vec<Value> = Vec::new();
        match decode_fields_unnamed(reg, fields, 0, cursor, fuel, &mut vals) {
            Result::Ok(u) => u,
            Result::Err(e) => { return Result::Err(e); },
        }
        proof {
            assert(values_model(Seq::<Value>::empty()) =~= Seq::<ValueModel>::empty());
        }
        Result::Ok(Composite::Unnamed(vals))
    }
}

/// Decode the fields from `i` on, appending each value to `out`.
pub(crate) fn decode_fields_unnamed(reg: &PortableRegistry, fields: &Vec<Field>, i: usize,
    cursor: &mut ByteCursor, fuel: u64, out: &mut Vec<Value>) -> (r: Result<(), DecodeError>)
    requires
        old(cursor).wf(),
        i <= fields@.len(),
    ensures
        final(cursor).wf(),
        final(cursor).spec_data() == old(cursor).spec_data(),
        match spec_decode_fields(
            registry_model(*reg),
            fields_model(fields@),
            i as int,
            old(cursor).spec_data(),
            old(cursor).spec_pos(),
            fuel as nat,
        ) {
            Result::Ok((vms, p)) => r is Ok && final(out)@.len() == old(out)@.len() + vms.len()
                && values_model(final(out)@) == values_model(old(out)@) + vms
                && final(cursor).spec_pos() == p,
            Result::Err(e) => r matches Result::Err(e2) && e2 == e,
        },
    decreases fuel, fields@.len() - i + 1,
{
    let ghost fm = fields_model(fields@);
    let ghost out0 = out@;
    if i >= fields.len() {
        proof {
            assert(values_model(out0) + Seq::<ValueModel>::empty() =~= values_model(out0));
        }
        return Result::Ok(());
    }
    proof {
        assert(fm[i as int] == field_model(fields@[i as int]));
    }
    let v = match decode_value(reg, fields[i].ty.id(), cursor, fuel) {
        Result::Ok(v) => v,
        Result::Err(e) => { return Result::Err(e); },
    };
    proof {
        lemma_values_model_push(out@, v);
    }
    let ghost vm = value_model(v);
    out.push(v);
    let ghost out1 = out@;
    let ghost p1 = cursor.spec_pos();
    match decode_fields_unnamed(reg, fields, i + 1, cursor, fuel, out) {
        Result::Ok(u) => u,
        Result::Err(e) => { return Result::Err(e); },
    }
    proof {
        let regm = registry_model(*reg);
        let data = old(cursor).spec_data();
        let pos0 = old(cursor).spec_pos();
        let rest = spec_decode_fields(regm, fm, i + 1, data, p1, fuel as nat);
        match rest {
            Result::Ok((vms2, p2)) => {
                assert(values_model(out@) == (values_model(out0) + seq![vm]) + vms2);
                assert((values_model(out0) + seq![vm]) + vms2 =~= values_model(out0) + (seq![vm]
                    + vms2));
            },
            Result::Err(e) => {
                // impossible: the call above returned successfully
                assert(false);
            },
        }
    }
    Result::Ok(())
}

/// Copy exactly 32 bytes into an array.
fn bytes32(bs: &Vec<u8>) -> (r: [u8; 32])
    requires
        bs@.len() == 32,
    ensures
        r@ == bs@,
{
    let mut arr: [u8; 32] = [0u8; 32];
    let mut i: usize = 0;
    while i < 32
        invariant
            0 <= i <= 32,
            bs@.len() == 32,
            forall|j: int| 0 <= j < i ==> arr@[j] == bs@[j],
        decreases 32 - i,
    {
        arr[i] = bs[i];
        i = i + 1;
    }
    proof {
        assert(arr@ =~= bs@);
    }
    arr
}

/// Decode the fields from `i` on, appending each name-value pair to `out`.
fn decode_fields_named(reg: &PortableRegistry, fields: &Vec<Field>, i: usize,
    cursor: &mut ByteCursor, fuel: u64, out: &mut Vec<(String, Value)>) -> (r: Result<
    (),
    DecodeError,
>)
    requires
        old(cursor).wf(),
        i <= fields@.len(),
        forall|j: int| i <= j < fields@.len() ==> fields_model(fields@)[j].name is Some,
    ensures
        final(cursor).wf(),
        final(cursor).spec_data() == old(cursor).spec_data(),
        match spec_decode_fields(
            registry_model(*reg),
            fields_model(fields@),
            i as int,
            old(cursor).spec_data(),
            old(cursor).spec_pos(),
            fuel as nat,
        ) {
            Result::Ok((vms, p)) => r is Ok && final(out)@.len() == old(out)@.len() + vms.len()
                && pairs_model(final(out)@) == pairs_model(old(out)@) + spec_zip_from(
                fields_model(fields@),
                i as int,
                vms,
            ) && final(cursor).spec_pos() == p,
            Result::Err(e) => r matches Result::Err(e2) && e2 == e,
        },
    decreases fuel, fields@.len() - i + 1,
{
    let ghost fm = fields_model(fields@);
    let ghost out0 = out@;
    if i >= fields.len() {
        proof {
            assert(spec_zip_from(fm, i as int, Seq::<ValueModel>::empty()) =~= Seq::<
                (Seq<char>, ValueModel),
            >::empty());
            assert(pairs_model(out0) + Seq::<(Seq<char>, ValueModel)>::empty() =~= pairs_model(
                out0,
            ));
        }
        return Result::Ok(());
    }
    proof {
        assert(fm[i as int] == field_model(fields@[i as int]));
    }
    let v = match decode_value(reg, fields[i].ty.id(), cursor, fuel) {
        Result::Ok(v) => v,
        Result::Err(e) => { return Result::Err(e); },
    };
    let name: String = match &fields[i].name {
        Option::Some(n) => n.clone(),
        Option::None => String::new(),  // unreachable: every field from `i` on is named
    };
    proof {
        assert(name@ == fm[i as int].name.unwrap());
        lemma_pairs_model_push(out@, (name, v));
    }
    let ghost vm = value_model(v);
    out.push((name, v));
    let ghost out1 = out@;
    let ghost p1 = cursor.spec_pos();
    match decode_fields_named(reg, fields, i + 1, cursor, fuel, out) {
        Result::Ok(u) => u,
        Result::Err(e) => { return Result::Err(e); },
    }
    proof {
        let regm = registry_model(*reg);
        let data = old(cursor).spec_data();
        let rest = spec_decode_fields(regm, fm, i + 1, data, p1, fuel as nat);
        match rest {
            Result::Ok((vms2, p2)) => {
                let zi = spec_zip_from(fm, i as int, seq![vm] + vms2);
                let zi1 = spec_zip_from(fm, i + 1, vms2);
                assert(zi =~= seq![(fm[i as int].name.unwrap(), vm)] + zi1);
                assert(pairs_model(out@) == (pairs_model(out0) + seq![
                    (fm[i as int].name.unwrap(), vm),
                ]) + zi1);
                assert((pairs_model(out0) + seq![(fm[i as int].name.unwrap(), vm)]) + zi1
                    =~= pairs_model(out0) + (seq![(fm[i as int].name.unwrap(), vm)] + zi1));
            },
            Result::Err(e) => {
                // impossible: the call above returned successfully
                assert(false);
            },
        }
    }
    Result::Ok(())
}

/// Decode the tuple elements from `i` on, appending each value to `out`.
fn decode_ids_into(reg: &PortableRegistry, elements: &Vec<TypeId>, i: usize,
    cursor: &mut ByteCursor, fuel: u64, out: &mut Vec<Value>) -> (r: Result<(), DecodeError>)
    requires
        old(cursor).wf(),
        i <= elements@.len(),
    ensures
        final(cursor).wf(),
        final(cursor).spec_data() == old(cursor).spec_data(),
        match spec_decode_ids(
            registry_model(*reg),
            ids_model(elements@),
            i as int,
            old(cursor).spec_data(),
            old(cursor).spec_pos(),
            fuel as nat,
        ) {
            Result::Ok((vms, p)) => r is Ok && final(out)@.len() == old(out)@.len() + vms.len()
                && values_model(final(out)@) == values_model(old(out)@) + vms
                && final(cursor).spec_pos() == p,
            Result::Err(e) => r matches Result::Err(e2) && e2 == e,
        },
    decreases fuel, elements@.len() - i + 1,
{
    let ghost em = ids_model(elements@);
    let ghost out0 = out@;
    if i >= elements.len() {
        proof {
            assert(values_model(out0) + Seq::<ValueModel>::empty() =~= values_model(out0));
        }
        return Result::Ok(());
    }
    proof {
        assert(em[i as int] == elements@[i as int].spec_id());
    }
    let v = match decode_value(reg, elements[i].id(), cursor, fuel) {
        Result::Ok(v) => v,
        Result::Err(e) => { return Result::Err(e); },
    };
    proof {
        lemma_values_model_push(out@, v);
    }
    let ghost vm = value_model(v);
    out.push(v);
    let ghost p1 = cursor.spec_pos();
    match decode_ids_into(reg, elements, i + 1, cursor, fuel, out) {
        Result::Ok(u) => u,
        Result::Err(e) => { return Result::Err(e); },
    }
    proof {
        let regm = registry_model(*reg);
        let data = old(cursor).spec_data();
        let rest = spec_decode_ids(regm, em, i + 1, data, p1, fuel as nat);
        match rest {
            Result::Ok((vms2, p2)) => {
                assert(values_model(out@) == (values_model(out0) + seq![vm]) + vms2);
                assert((values_model(out0) + seq![vm]) + vms2 =~= values_model(out0) + (seq![vm]
                    + vms2));
            },
            Result::Err(e) => {
                // impossible: the call above returned successfully
                assert(false);
            },
        }
    }
    Result::Ok(())
}

/// Decode `n` values of the element type, appending each to `out`.
fn decode_many_into(reg: &PortableRegistry, element: u32, n: u32, cursor: &mut ByteCursor,
    fuel: u64, out: &mut Vec<Value>) -> (r: Result<(), DecodeError>)
    requires
        old(cursor).wf(),
    ensures
        final(cursor).wf(),
        final(cursor).spec_data() == old(cursor).spec_data(),
        match spec_decode_many(
            registry_model(*reg),
            element,
            n as int,
            old(cursor).spec_data(),
            old(cursor).spec_pos(),
            fuel as nat,
        ) {
            Result::Ok((vms, p)) => r is Ok && final(out)@.len() == old(out)@.len() + vms.len()
                && values_model(final(out)@) == values_model(old(out)@) + vms
                && final(cursor).spec_pos() == p,
            Result::Err(e) => r matches Result::Err(e2) && e2 == e,
        },
    decreases fuel, 1int,
{
    let ghost regm = registry_model(*reg);
    let ghost data = old(cursor).spec_data();
    let ghost pos0 = old(cursor).spec_pos();
    let ghost out0 = out@;
    let ghost full = spec_decode_many(regm, element, n as int, data, pos0, fuel as nat);
    let ghost mut acc: Seq<ValueModel> = Seq::empty();
    proof {
        assert(values_model(out0) + acc =~= values_model(out0));
    }
    let mut k: u32 = 0;
    while k < n
        invariant
            cursor.wf(),
            cursor.spec_data() == data,
            data == old(cursor).spec_data(),
            pos0 == old(cursor).spec_pos(),
            out0 == old(out)@,
            regm == registry_model(*reg),
            full == spec_decode_many(regm, element, n as int, data, pos0, fuel as nat),
            out0.len() + acc.len() == out@.len(),
            acc.len() == k as int,
            k <= n,
            values_model(out@) == values_model(out0) + acc,
            match spec_decode_many(
                regm,
                element,
                (n - k) as int,
                data,
                cursor.spec_pos(),
                fuel as nat,
            ) {
                Result::Ok((vms, p)) => full == Result::<(Seq<ValueModel>, int),
                    DecodeError,
                >::Ok((acc + vms, p)),
                Result::Err(e) => full == Result::<(Seq<ValueModel>, int), DecodeError>::Err(e),
            },
        decreases n - k,
    {
        let ghost pk = cursor.spec_pos();
        let v = match decode_value(reg, element, cursor, fuel) {
            Result::Ok(v) => v,
            Result::Err(e) => {
                proof {
                    let hd = spec_decode_value(regm, element, data, pk, fuel as nat);
                    assert(hd == Result::<(ValueModel, int), DecodeError>::Err(e));
                    assert(spec_decode_many(regm, element, (n - k) as int, data, pk, fuel as nat)
                        == Result::<(Seq<ValueModel>, int), DecodeError>::Err(e));
                }
                return Result::Err(e);
            },
        };
        proof {
            lemma_values_model_push(out@, v);
        }
        let ghost vm = value_model(v);
        out.push(v);
        proof {
            let rest = spec_decode_many(
                regm,
                element,
                (n - k - 1) as int,
                data,
                cursor.spec_pos(),
                fuel as nat,
            );
            match rest {
                Result::Ok((vms2, p2)) => {
                    assert((acc + seq![vm]) + vms2 =~= acc + (seq![vm] + vms2));
                },
                Result::Err(e2) => {},
            }
            acc = acc + seq![vm];
            assert(values_model(out@) =~= values_model(out0) + acc);
        }
        k = k + 1;
    }
    Result::Ok(())
}


/// The number of fields or pairs a composite holds.
pub open spec fn spec_composite_len(c: CompositeModel) -> int {
    match c {
        CompositeModel::Named(s) => s.len() as int,
        CompositeModel::Unnamed(s) => s.len() as int,
    }
}

/// A found variant is one of the listed variants, under its discriminant.
pub proof fn lemma_find_variant_member(variants: Seq<VariantDefModel>, d: u8)
    ensures
        spec_find_variant(variants, d) matches Option::Some(vd) ==> exists|k: int|
            0 <= k < variants.len() && variants[k] == vd && #[trigger] variants[k].index == d,
    decreases variants.len(),
{
    if variants.len() > 0 {
        if variants[0].index == d {
        } else {
            let tail = variants.subrange(1, variants.len() as int);
            lemma_find_variant_member(tail, d);
            match spec_find_variant(tail, d) {
                Option::Some(vd) => {
                    let k = choose|k: int|
                        0 <= k < tail.len() && tail[k] == vd && #[trigger] tail[k].index == d;
                    assert(variants[k + 1] == vd && variants[k + 1].index == d);
                },
                Option::None => {},
            }
        }
    }
}

/// A successful field-list decode yields one value per remaining field.
pub proof fn lemma_decode_fields_len(
    reg: RegistryModel,
    fields: Seq<FieldModel>,
    i: int,
    data: Seq<u8>,
    pos: int,
    fuel: nat,
)
    requires
        0 <= i <= fields.len(),
    ensures
        spec_decode_fields(reg, fields, i, data, pos, fuel) matches Result::Ok((vms, p))
            ==> vms.len() == fields.len() - i,
    decreases fuel, (if i < fields.len() { fields.len() - i + 1 } else { 1int }),
{
    if i < fields.len() {
        match spec_decode_value(reg, fields[i].ty, data, pos, fuel) {
            Result::Ok((vm, p)) => {
                lemma_decode_fields_len(reg, fields, i + 1, data, p, fuel);
            },
            Result::Err(e) => {},
        }
    }
}

/// A successful counted decode yields exactly `n` values.
pub proof fn lemma_decode_many_len(
    reg: RegistryModel,
    element: u32,
    n: int,
    data: Seq<u8>,
    pos: int,
    fuel: nat,
)
    requires
        0 <= n,
    ensures
        spec_decode_many(reg, element, n, data, pos, fuel) matches Result::Ok((vms, p))
            ==> vms.len() == n,
    decreases fuel, (if n > 0 { n + 1 } else { 1int }),
{
    if n > 0 {
        match spec_decode_value(reg, element, data, pos, fuel) {
            Result::Ok((vm, p)) => {
                lemma_decode_many_len(reg, element, n - 1, data, p, fuel);
            },
            Result::Err(e) => {},
        }
    }
}

/// Every decoded variant's name is one listed for its type in the registry,
/// under the discriminant byte that was read, and it carries exactly as many
/// field values as that variant declares.
pub proof fn lemma_variant_decode(reg: RegistryModel, ty: u32, data: Seq<u8>, pos: int, fuel: nat)
    ensures
        match spec_decode_value(reg, ty, data, pos, fuel) {
            Result::Ok((vm, p)) => vm matches ValueModel::Variant(vmod)
                ==> reg_resolve(reg, ty) matches Option::Some(e) && e.def matches
                TypeDefModel::Variant { variants } && exists|k: int|
                0 <= k < variants.len() && #[trigger] variants[k].name == vmod.name
                    && variants[k].index == data[pos] && variants[k].fields.len()
                    == spec_composite_len(vmod.values),
            Result::Err(e) => true,
        },
{
    if fuel > 0 {
        match reg_resolve(reg, ty) {
            Option::Some(entry) => {
                match entry.def {
                    TypeDefModel::Variant { variants } => {
                        match spec_read_byte(data, pos) {
                            Result::Ok((d, p1)) => {
                                lemma_find_variant_member(variants, d);
                                match spec_find_variant(variants, d) {
                                    Option::Some(vd) => {
                                        match spec_decode_fields(
                                            reg,
                                            vd.fields,
                                            0,
                                            data,
                                            p1,
                                            (fuel - 1) as nat,
                                        ) {
                                            Result::Ok((vms, p2)) => {
                                                lemma_decode_fields_len(
                                                    reg,
                                                    vd.fields,
                                                    0,
                                                    data,
                                                    p1,
                                                    (fuel - 1) as nat,
                                                );
                                                let k = choose|k: int|
                                                    0 <= k < variants.len() && variants[k] == vd
                                                        && #[trigger] variants[k].index == d;
                                                assert(variants[k].name == vd.name);
                                                assert(spec_composite_len(
                                                    spec_mk_composite(vd.fields, vms),
                                                ) == vd.fields.len());
                                            },
                                            Result::Err(e) => {},
                                        }
                                    },
                                    Option::None => {},
                                }
                            },
                            Result::Err(e) => {},
                        }
                    },
                    TypeDefModel::Compact { inner } => {
                        match spec_peel(reg, inner, pos, (fuel - 1) as nat) {
                            Result::Ok((layers, kind)) => {
                                match spec_decode_compact_prim(kind, data, pos) {
                                    Result::Ok((pm, p)) => {
                                        lemma_wrap_not_variant(
                                            layers,
                                            ValueModel::Primitive(pm),
                                        );
                                    },
                                    Result::Err(e) => {},
                                }
                            },
                            Result::Err(e) => {},
                        }
                    },
                    _ => {},
                }
            },
            Option::None => {},
        }
    }
}

/// Re-wrapped compact values are composites or primitives, never variants.
proof fn lemma_wrap_not_variant(layers: Seq<Option<Seq<char>>>, v: ValueModel)
    requires
        !(v matches ValueModel::Variant { .. }),
    ensures
        !(spec_wrap(layers, v) matches ValueModel::Variant { .. }),
    decreases layers.len(),
{
    if layers.len() > 0 {
        lemma_wrap_not_variant(layers.subrange(1, layers.len() as int), v);
    }
}

/// A decoded sequence holds exactly as many elements as its length prefix
/// announces.
pub proof fn lemma_sequence_length(
    reg: RegistryModel,
    ty: u32,
    data: Seq<u8>,
    pos: int,
    fuel: nat,
)
    requires
        reg_resolve(reg, ty) matches Option::Some(e) && e.def matches TypeDefModel::Sequence {
            ..
        },
    ensures
        match spec_decode_value(reg, ty, data, pos, fuel) {
            Result::Ok((vm, p)) => spec_compact_u32(data, pos) matches Result::Ok((n, p1))
                && vm matches ValueModel::Composite(CompositeModel::Unnamed(vs)) && vs.len()
                == n,
            Result::Err(e) => true,
        },
{
    if fuel > 0 {
        let entry = reg_resolve(reg, ty).unwrap();
        match entry.def {
            TypeDefModel::Sequence { element } => {
                match spec_compact_u32(data, pos) {
                    Result::Ok((n, p1)) => {
                        lemma_decode_many_len(
                            reg,
                            element,
                            n as int,
                            data,
                            p1,
                            (fuel - 1) as nat,
                        );
                    },
                    Result::Err(e) => {},
                }
            },
            _ => {},
        }
    }
}

/// A decoded array holds exactly as many elements as its declared length.
pub proof fn lemma_array_length(reg: RegistryModel, ty: u32, data: Seq<u8>, pos: int, fuel: nat)
    requires
        reg_resolve(reg, ty) matches Option::Some(e) && e.def matches TypeDefModel::Array { .. },
    ensures
        match spec_decode_value(reg, ty, data, pos, fuel) {
            Result::Ok((vm, p)) => reg_resolve(reg, ty) matches Option::Some(e) && e.def matches
                TypeDefModel::Array { len, element } && vm matches ValueModel::Sequence(vs)
                && vs.len() == len,
            Result::Err(e) => true,
        },
{
    if fuel > 0 {
        let entry = reg_resolve(reg, ty).unwrap();
        match entry.def {
            TypeDefModel::Array { len, element } => {
                lemma_decode_many_len(reg, element, len as int, data, pos, (fuel - 1) as nat);
            },
            _ => {},
        }
    }
}


/// Decoding is deterministic: the outcome — the value and the bytes
/// consumed, or the error — is a function of the registry, the type id, the
/// input bytes and the fuel alone.  Every run of the decoder on the same
/// inputs satisfies the same equation, so any two runs agree.
pub proof fn lemma_decode_deterministic(
    reg: RegistryModel,
    ty: u32,
    data: Seq<u8>,
    pos: int,
    fuel: nat,
    r1: Result<(ValueModel, int), DecodeError>,
    r2: Result<(ValueModel, int), DecodeError>,
)
    requires
        r1 == spec_decode_value(reg, ty, data, pos, fuel),
        r2 == spec_decode_value(reg, ty, data, pos, fuel),
    ensures
        r1 == r2,
{
}


/// A compact read lands within the input: it consumes at least the first
/// byte and never passes the end.
pub proof fn lemma_compact_in_bounds(data: Seq<u8>, pos: int)
    requires
        0 <= pos <= data.len(),
    ensures
        spec_compact(data, pos) matches Result::Ok((pl, p)) ==> pos < p <= data.len(),
{
}

/// A 32-bit compact read lands within the input.
pub proof fn lemma_compact_u32_in_bounds(data: Seq<u8>, pos: int)
    requires
        0 <= pos <= data.len(),
    ensures
        spec_compact_u32(data, pos) matches Result::Ok((n, p)) ==> pos < p <= data.len(),
{
    lemma_compact_in_bounds(data, pos);
}

/// A primitive read lands within the input.
pub proof fn lemma_primitive_in_bounds(kind: PrimitiveKind, data: Seq<u8>, pos: int)
    requires
        0 <= pos <= data.len(),
    ensures
        spec_decode_primitive(kind, data, pos) matches Result::Ok((pm, p)) ==> pos <= p
            <= data.len(),
{
    match kind {
        PrimitiveKind::Str => {
            lemma_compact_u32_in_bounds(data, pos);
        },
        _ => {},
    }
}

/// A compact-encoded primitive read lands within the input.
pub proof fn lemma_compact_prim_in_bounds(kind: PrimitiveKind, data: Seq<u8>, pos: int)
    requires
        0 <= pos <= data.len(),
    ensures
        spec_decode_compact_prim(kind, data, pos) matches Result::Ok((pm, p)) ==> pos <= p
            <= data.len(),
{
    lemma_compact_in_bounds(data, pos);
}

/// A bit-sequence read lands within the input.
pub proof fn lemma_bitseq_in_bounds(
    reg: RegistryModel,
    store: u32,
    order: u32,
    data: Seq<u8>,
    pos: int,
)
    requires
        0 <= pos <= data.len(),
    ensures
        spec_decode_bitseq(reg, store, order, data, pos) matches Result::Ok((vm, p)) ==> pos <= p
            <= data.len(),
{
    lemma_compact_u32_in_bounds(data, pos);
}

/// Decoding one value consumes a contiguous range of the input: on success
/// the final position sits between the starting position and the end of the
/// data, and the value occupies exactly the bytes in between.
pub proof fn lemma_decode_value_in_bounds(
    reg: RegistryModel,
    ty: u32,
    data: Seq<u8>,
    pos: int,
    fuel: nat,
)
    requires
        0 <= pos <= data.len(),
    ensures
        spec_decode_value(reg, ty, data, pos, fuel) matches Result::Ok((vm, p)) ==> pos <= p
            <= data.len(),
    decreases fuel, 0nat,
{
    if fuel > 0 {
        match reg_resolve(reg, ty) {
            Option::None => {},
            Option::Some(entry) => match entry.def {
                TypeDefModel::Composite { fields } => {
                    lemma_decode_fields_in_bounds(reg, fields, 0, data, pos, (fuel - 1) as nat);
                },
                TypeDefModel::Variant { variants } => {
                    match spec_read_byte(data, pos) {
                        Result::Ok((d, p1)) => match spec_find_variant(variants, d) {
                            Option::Some(vd) => {
                                lemma_decode_fields_in_bounds(
                                    reg,
                                    vd.fields,
                                    0,
                                    data,
                                    p1,
                                    (fuel - 1) as nat,
                                );
                            },
                            Option::None => {},
                        },
                        Result::Err(e) => {},
                    }
                },
                TypeDefModel::Sequence { element } => {
                    lemma_compact_u32_in_bounds(data, pos);
                    match spec_compact_u32(data, pos) {
                        Result::Ok((n, p1)) => {
                            lemma_decode_many_in_bounds(
                                reg,
                                element,
                                n as int,
                                data,
                                p1,
                                (fuel - 1) as nat,
                            );
                        },
                        Result::Err(e) => {},
                    }
                },
                TypeDefModel::Array { len, element } => {
                    lemma_decode_many_in_bounds(
                        reg,
                        element,
                        len as int,
                        data,
                        pos,
                        (fuel - 1) as nat,
                    );
                },
                TypeDefModel::Tuple { elements } => {
                    lemma_decode_ids_in_bounds(reg, elements, 0, data, pos, (fuel - 1) as nat);
                },
                TypeDefModel::Primitive { kind } => {
                    lemma_primitive_in_bounds(kind, data, pos);
                },
                TypeDefModel::Compact { inner } => {
                    match spec_peel(reg, inner, pos, (fuel - 1) as nat) {
                        Result::Ok((layers, kind)) => {
                            lemma_compact_prim_in_bounds(kind, data, pos);
                        },
                        Result::Err(e) => {},
                    }
                },
                TypeDefModel::BitSequence { store, order } => {
                    lemma_bitseq_in_bounds(reg, store, order, data, pos);
                },
            },
        }
    }
}

/// Decoding a field list consumes a contiguous range of the input.
pub proof fn lemma_decode_fields_in_bounds(
    reg: RegistryModel,
    fields: Seq<FieldModel>,
    i: int,
    data: Seq<u8>,
    pos: int,
    fuel: nat,
)
    requires
        0 <= pos <= data.len(),
    ensures
        spec_decode_fields(reg, fields, i, data, pos, fuel) matches Result::Ok((vms, p)) ==> pos
            <= p <= data.len(),
    decreases fuel, (if i < fields.len() { fields.len() - i + 1 } else { 1int }),
{
    if 0 <= i < fields.len() {
        lemma_decode_value_in_bounds(reg, fields[i].ty, data, pos, fuel);
        match spec_decode_value(reg, fields[i].ty, data, pos, fuel) {
            Result::Ok((vm, p)) => {
                lemma_decode_fields_in_bounds(reg, fields, i + 1, data, p, fuel);
            },
            Result::Err(e) => {},
        }
    }
}

/// Decoding a counted element list consumes a contiguous range of the input.
pub proof fn lemma_decode_many_in_bounds(
    reg: RegistryModel,
    element: u32,
    n: int,
    data: Seq<u8>,
    pos: int,
    fuel: nat,
)
    requires
        0 <= pos <= data.len(),
    ensures
        spec_decode_many(reg, element, n, data, pos, fuel) matches Result::Ok((vms, p)) ==> pos
            <= p <= data.len(),
    decreases fuel, (if n > 0 { n + 1 } else { 1int }),
{
    if n > 0 {
        lemma_decode_value_in_bounds(reg, element, data, pos, fuel);
        match spec_decode_value(reg, element, data, pos, fuel) {
            Result::Ok((vm, p)) => {
                lemma_decode_many_in_bounds(reg, element, n - 1, data, p, fuel);
            },
            Result::Err(e) => {},
        }
    }
}

/// Decoding a tuple's elements consumes a contiguous range of the input.
pub proof fn lemma_decode_ids_in_bounds(
    reg: RegistryModel,
    elements: Seq<u32>,
    i: int,
    data: Seq<u8>,
    pos: int,
    fuel: nat,
)
    requires
        0 <= pos <= data.len(),
    ensures
        spec_decode_ids(reg, elements, i, data, pos, fuel) matches Result::Ok((vms, p)) ==> pos
            <= p <= data.len(),
    decreases fuel, (if i < elements.len() { elements.len() - i + 1 } else { 1int }),
{
    if 0 <= i < elements.len() {
        lemma_decode_value_in_bounds(reg, elements[i], data, pos, fuel);
        match spec_decode_value(reg, elements[i], data, pos, fuel) {
            Result::Ok((vm, p)) => {
                lemma_decode_ids_in_bounds(reg, elements, i + 1, data, p, fuel);
            },
            Result::Err(e) => {},
        }
    }
}

} // verus!
