//! A metadata-driven decoder for Substrate-style extrinsics.
//!
//! The decoder is driven entirely by runtime metadata: a binary blob that
//! enumerates every composite, variant, sequence, array, tuple, primitive and
//! bit-sequence type reachable from a callable entry point, and that indexes
//! pallets and calls by their numeric discriminants.  Given such a
//! [`metadata::Metadata`] value and the bytes of an extrinsic, the decoder
//! produces a structured [`value::Value`] tree.
//!
//! Every decoding function is specified against a mathematical mirror of the
//! wire format, so that success, failure and the produced value are pinned
//! down exactly for every input.

pub mod error;
pub mod value;
pub mod registry;
pub mod cursor;
pub mod compact;
pub mod decoder;
pub mod metadata;
pub mod extrinsic;
pub mod modules;
