//! The type registry: a flat, index-addressable table of type definitions.
//!
//! Type ids are opaque 32-bit indices into the registry; equality is by
//! numeric value and no arithmetic is performed on them.  Cycles through ids
//! are legal.  Each entry carries a path (used to recognise bit-order types
//! and to render diagnostics) and a definition drawn from the supported set.

use vstd::prelude::*;
use crate::error::{DecodeError, TypeDefKind};

verus! {

/// The ID of a type found in the metadata: an opaque index into the registry.
#[derive(Copy, Clone, Debug, PartialEq, Eq, Hash, Structural)]
pub struct TypeId(pub u32);

impl TypeId {
    /// Create a new `TypeId` from a `u32`.
    pub fn from_u32(id: u32) -> (r: TypeId)
        ensures
            r.0 == id,
    {
        TypeId(id)
    }

    /// Return the `u32` index into the registry.
    pub fn id(self) -> (r: u32)
        ensures
            r == self.0,
    {
        self.0
    }

    /// The numeric value of the id.
    pub open spec fn spec_id(self) -> u32 {
        self.0
    }
}

/// The primitive types values may have.
#[derive(Copy, Clone, Debug, PartialEq, Eq, Structural)]
pub enum PrimitiveKind {
    Bool,
    Char,
    Str,
    U8,
    U16,
    U32,
    U64,
    U128,
    U256,
    I8,
    I16,
    I32,
    I64,
    I128,
    I256,
}

impl PrimitiveKind {
    /// True of the unsigned integer kinds, the only ones a compact wrapper
    /// may resolve to.
    pub open spec fn spec_is_unsigned(self) -> bool {
        self == PrimitiveKind::U8 || self == PrimitiveKind::U16 || self == PrimitiveKind::U32
            || self == PrimitiveKind::U64 || self == PrimitiveKind::U128
            || self == PrimitiveKind::U256
    }
}

/// One field of a composite or variant: an optional name and a type id.
#[derive(Clone, Debug, PartialEq)]
pub struct Field {
    pub name: Option<String>,
    pub ty: TypeId,
}

/// One variant of a variant type.  The discriminant `index` is explicit and
/// need not equal the variant's position in the list.
#[derive(Clone, Debug, PartialEq)]
pub struct VariantDef {
    pub name: String,
    pub index: u8,
    pub fields: Vec<Field>,
}

/// A type definition: the tagged set the decoder dispatches over.
#[derive(Debug, PartialEq)]
pub enum TypeDef {
    /// Encodes as the concatenation of its fields.
    Composite { fields: Vec<Field> },
    /// Encodes as one discriminant byte, then the chosen variant's fields.
    Variant { variants: Vec<VariantDef> },
    /// Encodes as a compact length prefix, then that many elements.
    Sequence { element: TypeId },
    /// Encodes as exactly `len` elements, with no prefix.
    Array { len: u32, element: TypeId },
    /// Equivalent to an unnamed composite.
    Tuple { elements: Vec<TypeId> },
    /// A fixed-width little-endian value, a bool, a char or a string.
    Primitive { kind: PrimitiveKind },
    /// The inner integer, compact-encoded.
    Compact { inner: TypeId },
    /// A compact bit count, then the least number of storage words that holds
    /// that many bits.
    BitSequence { store: TypeId, order: TypeId },
}

impl TypeDef {
    /// The kind tag of this definition, for diagnostics.
    pub open spec fn spec_kind(&self) -> TypeDefKind {
        match self {
            TypeDef::Composite { .. } => TypeDefKind::Composite,
            TypeDef::Variant { .. } => TypeDefKind::Variant,
            TypeDef::Sequence { .. } => TypeDefKind::Sequence,
            TypeDef::Array { .. } => TypeDefKind::Array,
            TypeDef::Tuple { .. } => TypeDefKind::Tuple,
            TypeDef::Primitive { .. } => TypeDefKind::Primitive,
            TypeDef::Compact { .. } => TypeDefKind::Compact,
            TypeDef::BitSequence { .. } => TypeDefKind::BitSequence,
        }
    }

    /// The kind tag of this definition, for diagnostics.
    pub fn kind(&self) -> (r: TypeDefKind)
        ensures
            r == self.spec_kind(),
    {
        match self {
            TypeDef::Composite { .. } => TypeDefKind::Composite,
            TypeDef::Variant { .. } => TypeDefKind::Variant,
            TypeDef::Sequence { .. } => TypeDefKind::Sequence,
            TypeDef::Array { .. } => TypeDefKind::Array,
            TypeDef::Tuple { .. } => TypeDefKind::Tuple,
            TypeDef::Primitive { .. } => TypeDefKind::Primitive,
            TypeDef::Compact { .. } => TypeDefKind::Compact,
            TypeDef::BitSequence { .. } => TypeDefKind::BitSequence,
        }
    }
}

/// One registry entry: the id it is addressed by, the type's path as found in
/// metadata, and its definition.
#[derive(Debug, PartialEq)]
pub struct PortableType {
    pub id: u32,
    pub path: Vec<String>,
    pub def: TypeDef,
}

/// A flat table of type definitions, resolved by numeric id.
#[derive(Debug, PartialEq)]
pub struct PortableRegistry {
    pub types: Vec<PortableType>,
}

/// Ghost mirror of [`Field`].
pub struct FieldModel {
    pub name: Option<Seq<char>>,
    pub ty: u32,
}

/// Ghost mirror of [`VariantDef`].
pub struct VariantDefModel {
    pub name: Seq<char>,
    pub index: u8,
    pub fields: Seq<FieldModel>,
}

/// Ghost mirror of [`TypeDef`].
pub enum TypeDefModel {
    Composite { fields: Seq<FieldModel> },
    Variant { variants: Seq<VariantDefModel> },
    Sequence { element: u32 },
    Array { len: u32, element: u32 },
    Tuple { elements: Seq<u32> },
    Primitive { kind: PrimitiveKind },
    Compact { inner: u32 },
    BitSequence { store: u32, order: u32 },
}

impl TypeDefModel {
    /// The kind tag of this definition, for diagnostics.
    pub open spec fn kind(self) -> TypeDefKind {
        match self {
            TypeDefModel::Composite { .. } => TypeDefKind::Composite,
            TypeDefModel::Variant { .. } => TypeDefKind::Variant,
            TypeDefModel::Sequence { .. } => TypeDefKind::Sequence,
            TypeDefModel::Array { .. } => TypeDefKind::Array,
            TypeDefModel::Tuple { .. } => TypeDefKind::Tuple,
            TypeDefModel::Primitive { .. } => TypeDefKind::Primitive,
            TypeDefModel::Compact { .. } => TypeDefKind::Compact,
            TypeDefModel::BitSequence { .. } => TypeDefKind::BitSequence,
        }
    }
}

/// Ghost mirror of [`PortableType`].
pub struct PortableTypeModel {
    pub id: u32,
    pub path: Seq<Seq<char>>,
    pub def: TypeDefModel,
}

/// Ghost mirror of [`PortableRegistry`]: the sequence of entries.
pub type RegistryModel = Seq<PortableTypeModel>;

/// The mirror of a field.
pub open spec fn field_model(f: Field) -> FieldModel {
    FieldModel {
        name: match f.name {
            Option::Some(n) => Option::Some(n@),
            Option::None => Option::None,
        },
        ty: f.ty.spec_id(),
    }
}

/// The mirror of a field list, elementwise.
pub open spec fn fields_model(s: Seq<Field>) -> Seq<FieldModel> {
    s.map(|i: int, f: Field| field_model(f))
}

/// The mirror of a variant definition.
pub open spec fn variant_def_model(v: VariantDef) -> VariantDefModel {
    VariantDefModel { name: v.name@, index: v.index, fields: fields_model(v.fields@) }
}

/// The mirror of a variant list, elementwise.
pub open spec fn variants_model(s: Seq<VariantDef>) -> Seq<VariantDefModel> {
    s.map(|i: int, v: VariantDef| variant_def_model(v))
}

/// The mirror of a type-id list, elementwise.
pub open spec fn ids_model(s: Seq<TypeId>) -> Seq<u32> {
    s.map(|i: int, t: TypeId| t.spec_id())
}

/// The mirror of a string list, elementwise.
pub open spec fn strings_model(s: Seq<String>) -> Seq<Seq<char>> {
    s.map(|i: int, x: String| x@)
}

/// The mirror of a type definition.
pub open spec fn type_def_model(d: TypeDef) -> TypeDefModel {
    match d {
        TypeDef::Composite { fields } => TypeDefModel::Composite {
            fields: fields_model(fields@),
        },
        TypeDef::Variant { variants } => TypeDefModel::Variant {
            variants: variants_model(variants@),
        },
        TypeDef::Sequence { element } => TypeDefModel::Sequence { element: element.spec_id() },
        TypeDef::Array { len, element } => TypeDefModel::Array {
            len,
            element: element.spec_id(),
        },
        TypeDef::Tuple { elements } => TypeDefModel::Tuple { elements: ids_model(elements@) },
        TypeDef::Primitive { kind } => TypeDefModel::Primitive { kind },
        TypeDef::Compact { inner } => TypeDefModel::Compact { inner: inner.spec_id() },
        TypeDef::BitSequence { store, order } => TypeDefModel::BitSequence {
            store: store.spec_id(),
            order: order.spec_id(),
        },
    }
}

/// The mirror of a registry entry.
pub open spec fn portable_type_model(t: PortableType) -> PortableTypeModel {
    PortableTypeModel { id: t.id, path: strings_model(t.path@), def: type_def_model(t.def) }
}

/// The mirror of a registry entry list, elementwise.
pub open spec fn portable_types_model(s: Seq<PortableType>) -> Seq<PortableTypeModel> {
    s.map(|i: int, t: PortableType| portable_type_model(t))
}

/// The mirror of a registry.
pub open spec fn registry_model(r: PortableRegistry) -> RegistryModel {
    portable_types_model(r.types@)
}

/// The entry a registry resolves an id to: the first entry carrying that id,
/// if any.
pub open spec fn reg_resolve(reg: RegistryModel, id: u32) -> Option<PortableTypeModel>
    decreases reg.len(),
{
    if reg.len() == 0 {
        Option::None
    } else if reg[0].id == id {
        Option::Some(reg[0])
    } else {
        reg_resolve(reg.subrange(1, reg.len() as int), id)
    }
}

impl PortableRegistry {
    /// The mirror of this registry.
    pub open spec fn view_model(&self) -> RegistryModel {
        registry_model(*self)
    }

    /// Resolve a type id to its registry entry, or `None` if absent.
    pub fn resolve(&self, id: TypeId) -> (r: Option<&PortableType>)
        ensures
            match r {
                Option::Some(t) => reg_resolve(self.view_model(), id.spec_id())
                    == Option::Some(portable_type_model(*t)),
                Option::None => reg_resolve(self.view_model(), id.spec_id()) is None,
            },
    {
        let n: usize = self.types.len();
        let mut i: usize = 0;
        proof {
            assert(self.view_model().subrange(0, n as int) =~= self.view_model());
        }
        while i < n
            invariant
                0 <= i <= n,
                n == self.types.len(),
                reg_resolve(self.view_model(), id.spec_id()) == reg_resolve(
                    self.view_model().subrange(i as int, n as int),
                    id.spec_id(),
                ),
            decreases n - i,
        {
            if self.types[i].id == id.id() {
                proof {
                    let tail = self.view_model().subrange(i as int, n as int);
                    assert(tail[0] == self.view_model()[i as int]);
                }
                return Option::Some(&self.types[i]);
            }
            proof {
                let tail = self.view_model().subrange(i as int, n as int);
                assert(tail[0] == self.view_model()[i as int]);
                assert(tail.subrange(1, tail.len() as int) =~= self.view_model().subrange(
                    i + 1,
                    n as int,
                ));
            }
            i = i + 1;
        }
        proof {
            assert(self.view_model().subrange(n as int, n as int) =~= Seq::empty());
        }
        Option::None
    }

    /// Resolve a type id that must name a variant type: the variant list on
    /// success, `TypeNotFound` when the id is absent, and
    /// `ExpectedVariantType` carrying the kind that was found instead.
    pub fn as_variant(&self, id: TypeId) -> (r: Result<&Vec<VariantDef>, DecodeError>)
        ensures
            match reg_resolve(self.view_model(), id.spec_id()) {
                Option::None => r == Result::<&Vec<VariantDef>, DecodeError>::Err(
                    DecodeError::TypeNotFound { id: id.spec_id() },
                ),
                Option::Some(e) => match e.def {
                    TypeDefModel::Variant { variants } => r matches Result::Ok(vs)
                        && variants_model(vs@) == variants,
                    _ => r == Result::<&Vec<VariantDef>, DecodeError>::Err(
                        DecodeError::ExpectedVariantType { got: e.def.kind() },
                    ),
                },
            },
    {
        let entry = match self.resolve(id) {
            Option::Some(e) => e,
            Option::None => {
                return Result::Err(DecodeError::TypeNotFound { id: id.id() });
            },
        };
        match &entry.def {
            TypeDef::Variant { variants } => Result::Ok(variants),
            _ => Result::Err(DecodeError::ExpectedVariantType { got: entry.def.kind() }),
        }
    }
}

} // verus!
