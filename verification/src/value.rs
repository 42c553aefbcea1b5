//! The universe of decoded values, and its mathematical mirror.
//!
//! [`Value`] is the tagged sum a decode produces: composites (named or
//! unnamed field lists), variants, sequences, bit sequences and primitives.
//! Sequences and arrays both decode to [`Sequence`]; structs and tuples both
//! decode to [`Composite`].  Equality is structural.
//!
//! Each executable type has a ghost mirror built from `Seq` so that
//! specifications can construct and compare decoded values: [`ValueModel`]
//! and its companions.  The spec functions [`value_model`] and friends map an
//! executable value to its mirror.

use vstd::prelude::*;

verus! {

/// A named or unnamed struct or tuple.
#[derive(Debug, PartialEq)]
pub enum Composite {
    /// Eg `{ foo: 2, bar: false }`
    Named(Vec<(String, Value)>),
    /// Eg `(2, false)`
    Unnamed(Vec<Value>),
}

/// An enum variant: the variant's name together with its field values.
#[derive(Debug, PartialEq)]
pub struct Variant {
    /// The name of the variant.
    pub name: String,
    /// Values for each of the named or unnamed fields of this variant.
    pub values: Composite,
}

/// A primitive value (this includes strings).
#[derive(Clone, Debug, PartialEq)]
pub enum Primitive {
    Bool(bool),
    Char(char),
    Str(String),
    U8(u8),
    U16(u16),
    U32(u32),
    U64(u64),
    U128(u128),
    U256([u8; 32]),
    I8(i8),
    I16(i16),
    I32(i32),
    I64(i64),
    I128(i128),
    I256([u8; 32]),
}

/// A representation of some value that has been decoded.
#[derive(Debug, PartialEq)]
pub enum Value {
    /// A named or unnamed struct or tuple.
    Composite(Composite),
    /// An enum variant.
    Variant(Variant),
    /// A sequence or array type.
    Sequence(Sequence),
    /// A sequence of bits.
    BitSequence(BitSequence),
    /// Any of the primitive values we can have.
    Primitive(Primitive),
}

/// A sequence or array of values.
pub type Sequence = Vec<Value>;

/// A packed-bit array, one `bool` per bit.
pub type BitSequence = Vec<bool>;

/// Ghost mirror of [`Composite`].
pub enum CompositeModel {
    Named(Seq<(Seq<char>, ValueModel)>),
    Unnamed(Seq<ValueModel>),
}

/// Ghost mirror of [`Variant`].
pub struct VariantModel {
    pub name: Seq<char>,
    pub values: CompositeModel,
}

/// Ghost mirror of [`Primitive`].
pub enum PrimitiveModel {
    Bool(bool),
    Char(char),
    Str(Seq<char>),
    U8(u8),
    U16(u16),
    U32(u32),
    U64(u64),
    U128(u128),
    U256(Seq<u8>),
    I8(i8),
    I16(i16),
    I32(i32),
    I64(i64),
    I128(i128),
    I256(Seq<u8>),
}

/// Ghost mirror of [`Value`].
pub enum ValueModel {
    Composite(CompositeModel),
    Variant(VariantModel),
    Sequence(Seq<ValueModel>),
    BitSequence(Seq<bool>),
    Primitive(PrimitiveModel),
}

/// The mirror of a primitive value.
pub open spec fn primitive_model(p: Primitive) -> PrimitiveModel {
    match p {
        Primitive::Bool(b) => PrimitiveModel::Bool(b),
        Primitive::Char(c) => PrimitiveModel::Char(c),
        Primitive::Str(s) => PrimitiveModel::Str(s@),
        Primitive::U8(v) => PrimitiveModel::U8(v),
        Primitive::U16(v) => PrimitiveModel::U16(v),
        Primitive::U32(v) => PrimitiveModel::U32(v),
        Primitive::U64(v) => PrimitiveModel::U64(v),
        Primitive::U128(v) => PrimitiveModel::U128(v),
        Primitive::U256(bs) => PrimitiveModel::U256(bs@),
        Primitive::I8(v) => PrimitiveModel::I8(v),
        Primitive::I16(v) => PrimitiveModel::I16(v),
        Primitive::I32(v) => PrimitiveModel::I32(v),
        Primitive::I64(v) => PrimitiveModel::I64(v),
        Primitive::I128(v) => PrimitiveModel::I128(v),
        Primitive::I256(bs) => PrimitiveModel::I256(bs@),
    }
}

/// The mirror of a decoded value.
pub open spec fn value_model(v: Value) -> ValueModel
    decreases v,
{
    match v {
        Value::Composite(c) => ValueModel::Composite(composite_model(c)),
        Value::Variant(var) => ValueModel::Variant(
            VariantModel { name: var.name@, values: composite_model(var.values) },
        ),
        Value::Sequence(xs) => ValueModel::Sequence(values_model(xs@)),
        Value::BitSequence(bits) => ValueModel::BitSequence(bits@),
        Value::Primitive(p) => ValueModel::Primitive(primitive_model(p)),
    }
}

/// The mirror of a composite value.
pub open spec fn composite_model(c: Composite) -> CompositeModel
    decreases c,
{
    match c {
        Composite::Named(pairs) => CompositeModel::Named(pairs_model(pairs@)),
        Composite::Unnamed(vals) => CompositeModel::Unnamed(values_model(vals@)),
    }
}

/// The mirror of a list of values, elementwise.
pub open spec fn values_model(s: Seq<Value>) -> Seq<ValueModel>
    decreases s,
{
    if s.len() == 0 {
        Seq::empty()
    } else {
        seq![value_model(s[0])] + values_model(s.subrange(1, s.len() as int))
    }
}

/// The mirror of a list of named values, elementwise.
pub open spec fn pairs_model(s: Seq<(String, Value)>) -> Seq<(Seq<char>, ValueModel)>
    decreases s,
{
    if s.len() == 0 {
        Seq::empty()
    } else {
        seq![(s[0].0@, value_model(s[0].1))] + pairs_model(s.subrange(1, s.len() as int))
    }
}

/// `values_model` is the elementwise image of `value_model`.
pub proof fn lemma_values_model_pointwise(s: Seq<Value>)
    ensures
        values_model(s).len() == s.len(),
        forall|i: int| 0 <= i < s.len() ==> values_model(s)[i] == value_model(s[i]),
    decreases s.len(),
{
    if s.len() > 0 {
        lemma_values_model_pointwise(s.subrange(1, s.len() as int));
    }
}

/// `pairs_model` is the elementwise image of the name view and `value_model`.
pub proof fn lemma_pairs_model_pointwise(s: Seq<(String, Value)>)
    ensures
        pairs_model(s).len() == s.len(),
        forall|i: int| 0 <= i < s.len() ==> pairs_model(s)[i] == (s[i].0@, value_model(s[i].1)),
    decreases s.len(),
{
    if s.len() > 0 {
        lemma_pairs_model_pointwise(s.subrange(1, s.len() as int));
    }
}

/// Appending one value appends its mirror.
pub proof fn lemma_values_model_push(s: Seq<Value>, x: Value)
    ensures
        values_model(s.push(x)) == values_model(s) + seq![value_model(x)],
{
    lemma_values_model_pointwise(s.push(x));
    lemma_values_model_pointwise(s);
    assert(values_model(s.push(x)) =~= values_model(s) + seq![value_model(x)]);
}

/// Appending one named value appends its mirror.
pub proof fn lemma_pairs_model_push(s: Seq<(String, Value)>, x: (String, Value))
    ensures
        pairs_model(s.push(x)) == pairs_model(s) + seq![(x.0@, value_model(x.1))],
{
    lemma_pairs_model_pointwise(s.push(x));
    lemma_pairs_model_pointwise(s);
    assert(pairs_model(s.push(x)) =~= pairs_model(s) + seq![(x.0@, value_model(x.1))]);
}

} // verus!
