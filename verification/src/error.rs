//! Error values returned by the metadata loader and by the decoder.
//!
//! Every error carries enough plain data to diagnose the failure without the
//! input at hand: the offending type id, the cursor offset, the byte that was
//! rejected.  All fields are plain integers or small enums, so both error
//! types have structural equality and can be built and compared inside
//! specifications.

use vstd::prelude::*;

verus! {

/// The kind of a type definition, used to report what was found where a
/// different definition was required.
#[derive(Clone, Copy, Debug, PartialEq, Eq, Structural)]
pub enum TypeDefKind {
    Composite,
    Variant,
    Sequence,
    Array,
    Tuple,
    Primitive,
    Compact,
    BitSequence,
}

/// An error raised while decoding a value or an extrinsic.
#[derive(Clone, Copy, Debug, PartialEq, Eq, Structural)]
pub enum DecodeError {
    /// A type id was not present in the registry.
    TypeNotFound { id: u32 },
    /// A variant type was required, but the registry held another definition.
    ExpectedVariantType { got: TypeDefKind },
    /// No variant of the type carries the discriminant that was read.
    VariantNotFound { type_id: u32, discriminant: u8 },
    /// No call exists at the given pallet and call indices.
    CallNotFound { pallet: u8, call: u8 },
    /// The input ended before a read of `need` bytes could complete.
    UnexpectedEof { need: u64, have: u64, offset: u64 },
    /// Bytes remained after the value was fully decoded.
    TrailingBytes { remaining: u64, offset: u64 },
    /// A compact-encoded integer does not fit the declared width in bytes.
    CompactOverflow { declared_width: u8, value_bytes: u8 },
    /// A boolean byte other than 0 or 1.
    InvalidBool { byte: u8 },
    /// A four-byte code point that is a surrogate or out of range.
    InvalidChar { code_point: u32 },
    /// A string's bytes are not valid UTF-8.
    InvalidUtf8 { offset: u64 },
    /// A registry entry whose definition is outside the supported set, or a
    /// compact wrapper whose inner type is not an unsigned integer.
    UnsupportedTypeDefinition { kind: TypeDefKind },
    /// The version byte of an extrinsic does not match the metadata.
    UnsupportedExtrinsicVersion { got: u8, expected: u8 },
    /// The type graph recursed without consuming input for longer than any
    /// value of the input's size could nest.
    RecursionLimit { type_id: u32, offset: u64 },
}

/// An error raised while constructing a `Metadata` value.
#[derive(Clone, Copy, Debug, PartialEq, Eq, Structural)]
pub enum MetadataError {
    /// The four magic bytes at the start of the blob are wrong.
    BadMagic,
    /// The metadata version byte is not the supported one.
    UnsupportedVersion { got: u8 },
    /// The blob ended before a read of `need` bytes could complete.
    UnexpectedEof { need: u64, have: u64, offset: u64 },
    /// A name in the blob is not valid UTF-8.
    InvalidUtf8 { offset: u64 },
    /// A compact-encoded integer in the blob does not fit its width.
    CompactOverflow { declared_width: u8, value_bytes: u8 },
    /// A type definition tag or primitive tag outside the supported set.
    UnsupportedTypeDefinition { tag: u8 },
    /// A pallet's calls type id was not present in the registry.
    TypeNotFound { id: u32 },
    /// A pallet's calls type resolved to something other than a variant type.
    ExpectedVariantType { got: TypeDefKind },
}

} // verus!
