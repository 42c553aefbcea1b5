//! Extrinsic framing: the outermost envelope around a call.
//!
//! An extrinsic as found in a block carries a compact length prefix; the
//! unwrapped body starts with a version byte whose high bit says whether the
//! extrinsic is signed and whose low seven bits must match the metadata's
//! extrinsic version.  A signed extrinsic then carries an address, a
//! signature and each signed extension's transmitted payload, in declared
//! order.  The body proper is one pallet index byte, one call index byte and
//! the call's arguments.  After a decode the input must be exhausted;
//! trailing bytes are an error.
//!
//! [`spec_decode_unwrapped_at`] and [`spec_decode_extrinsic`] pin both
//! operations down completely, and [`lemma_unwrapped_consumes_all`] records
//! that a successful decode consumes the input to its end.

use vstd::prelude::*;
use crate::error::DecodeError;
use crate::value::{Value, ValueModel, value_model, pairs_model, values_model,
    lemma_pairs_model_push};
use crate::registry::{TypeId, registry_model};
use crate::metadata::{Metadata, MetadataModel, metadata_model, spec_call_variant};
use crate::cursor::{ByteCursor, spec_read_byte};
use crate::compact::spec_compact_u32;
use crate::decoder::{spec_decode_value, spec_decode_fields, spec_initial_fuel, decode_value,
    decode_fields_unnamed};

verus! {

/// The signature area of a signed extrinsic.
#[derive(Debug, PartialEq)]
pub struct ExtrinsicSignature {
    /// The sender's address.
    pub address: Value,
    /// The signature over the call and the signed extensions.
    pub signature: Value,
    /// Each signed extension's transmitted payload, by name, in declared
    /// order.
    pub extensions: Vec<(String, Value)>,
}

/// A decoded extrinsic: the pallet and call selected, the call's arguments,
/// and the signature area when the extrinsic was signed.
#[derive(Debug, PartialEq)]
pub struct DecodedExtrinsic {
    pub pallet: String,
    pub call: String,
    pub arguments: Vec<Value>,
    pub signature: Option<ExtrinsicSignature>,
}

/// Ghost mirror of [`ExtrinsicSignature`].
pub struct SignatureModel {
    pub address: ValueModel,
    pub signature: ValueModel,
    pub extensions: Seq<(Seq<char>, ValueModel)>,
}

/// Ghost mirror of [`DecodedExtrinsic`].
pub struct DecodedExtrinsicModel {
    pub pallet: Seq<char>,
    pub call: Seq<char>,
    pub arguments: Seq<ValueModel>,
    pub signature: Option<SignatureModel>,
}

/// The mirror of a signature area.
pub open spec fn signature_model(s: ExtrinsicSignature) -> SignatureModel {
    SignatureModel {
        address: value_model(s.address),
        signature: value_model(s.signature),
        extensions: pairs_model(s.extensions@),
    }
}

/// The mirror of a decoded extrinsic.
pub open spec fn decoded_extrinsic_model(d: DecodedExtrinsic) -> DecodedExtrinsicModel {
    DecodedExtrinsicModel {
        pallet: d.pallet@,
        call: d.call@,
        arguments: values_model(d.arguments@),
        signature: match d.signature {
            Option::Some(s) => Option::Some(signature_model(s)),
            Option::None => Option::None,
        },
    }
}

/// The signed extensions' transmitted payloads from index `i` on, each
/// paired with its extension's name.
pub open spec fn spec_decode_extensions(
    m: MetadataModel,
    i: int,
    data: Seq<u8>,
    pos: int,
    fuel: nat,
) -> Result<(Seq<(Seq<char>, ValueModel)>, int), DecodeError>
    decreases m.extrinsic.signed_extensions.len() - i,
{
    if i < 0 || i >= m.extrinsic.signed_extensions.len() {
        Result::Ok((Seq::empty(), pos))
    } else {
        let ext = m.extrinsic.signed_extensions[i];
        match spec_decode_value(m.types, ext.ty, data, pos, fuel) {
            Result::Err(e) => Result::Err(e),
            Result::Ok((vm, p)) => match spec_decode_extensions(m, i + 1, data, p, fuel) {
                Result::Err(e) => Result::Err(e),
                Result::Ok((rest, p2)) => Result::Ok(
                    (seq![(ext.identifier, vm)] + rest, p2),
                ),
            },
        }
    }
}

/// An unwrapped extrinsic starting at `start`: version byte, optional
/// signature area, pallet and call index bytes, the call's arguments, and
/// nothing after them.  On success the final position is the end of the
/// data.
pub open spec fn spec_decode_unwrapped_at(m: MetadataModel, data: Seq<u8>, start: int) -> Result<
    (DecodedExtrinsicModel, int),
    DecodeError,
> {
    let fuel = spec_initial_fuel(data.len(), m.types.len());
    match spec_read_byte(data, start) {
        Result::Err(e) => Result::Err(e),
        Result::Ok((vb, p0)) => {
            let is_signed = (vb & 0x80) == 0x80;
            let ver = vb & 0x7f;
            if ver != m.extrinsic.version {
                Result::Err(
                    DecodeError::UnsupportedExtrinsicVersion {
                        got: ver,
                        expected: m.extrinsic.version,
                    },
                )
            } else if is_signed {
                match spec_decode_value(m.types, m.extrinsic.address_ty, data, p0, fuel) {
                    Result::Err(e) => Result::Err(e),
                    Result::Ok((addr, p1)) => match spec_decode_value(
                        m.types,
                        m.extrinsic.signature_ty,
                        data,
                        p1,
                        fuel,
                    ) {
                        Result::Err(e) => Result::Err(e),
                        Result::Ok((sig, p2)) => match spec_decode_extensions(
                            m,
                            0,
                            data,
                            p2,
                            fuel,
                        ) {
                            Result::Err(e) => Result::Err(e),
                            Result::Ok((exts, p3)) => spec_decode_call(
                                m,
                                data,
                                p3,
                                fuel,
                                Option::Some(
                                    SignatureModel {
                                        address: addr,
                                        signature: sig,
                                        extensions: exts,
                                    },
                                ),
                            ),
                        },
                    },
                }
            } else {
                spec_decode_call(m, data, p0, fuel, Option::None)
            }
        },
    }
}

/// The call body: pallet index byte, call index byte, the call's arguments,
/// and the trailing-bytes check.
pub open spec fn spec_decode_call(
    m: MetadataModel,
    data: Seq<u8>,
    pos: int,
    fuel: nat,
    signature: Option<SignatureModel>,
) -> Result<(DecodedExtrinsicModel, int), DecodeError> {
    match spec_read_byte(data, pos) {
        Result::Err(e) => Result::Err(e),
        Result::Ok((pallet, p1)) => match spec_read_byte(data, p1) {
            Result::Err(e) => Result::Err(e),
            Result::Ok((call, p2)) => match spec_call_variant(m, pallet, call) {
                Option::None => Result::Err(DecodeError::CallNotFound { pallet, call }),
                Option::Some((pname, vd)) => match spec_decode_fields(
                    m.types,
                    vd.fields,
                    0,
                    data,
                    p2,
                    fuel,
                ) {
                    Result::Err(e) => Result::Err(e),
                    Result::Ok((args, p3)) => if p3 != data.len() {
                        Result::Err(
                            DecodeError::TrailingBytes {
                                remaining: (data.len() - p3) as u64,
                                offset: p3 as u64,
                            },
                        )
                    } else {
                        Result::Ok(
                            (
                                DecodedExtrinsicModel {
                                    pallet: pname,
                                    call: vd.name,
                                    arguments: args,
                                    signature,
                                },
                                p3,
                            ),
                        )
                    },
                },
            },
        },
    }
}

/// A length-prefixed extrinsic as found in a block: a compact byte count,
/// then exactly that many bytes of unwrapped extrinsic.
pub open spec fn spec_decode_extrinsic(m: MetadataModel, data: Seq<u8>) -> Result<
    (DecodedExtrinsicModel, int),
    DecodeError,
> {
    match spec_compact_u32(data, 0) {
        Result::Err(e) => Result::Err(e),
        Result::Ok((n, p1)) => if data.len() - p1 < n {
            Result::Err(
                DecodeError::UnexpectedEof {
                    need: n as u64,
                    have: (data.len() - p1) as u64,
                    offset: p1 as u64,
                },
            )
        } else if data.len() - p1 > n {
            Result::Err(
                DecodeError::TrailingBytes {
                    remaining: (data.len() - p1 - n) as u64,
                    offset: (p1 + n) as u64,
                },
            )
        } else {
            spec_decode_unwrapped_at(m, data, p1)
        },
    }
}

/// A successful unwrapped decode consumes the input to its end.
pub proof fn lemma_unwrapped_consumes_all(m: MetadataModel, data: Seq<u8>, start: int)
    ensures
        spec_decode_unwrapped_at(m, data, start) matches Result::Ok((d, p)) ==> p == data.len(),
{
}

/// A successful wrapped decode consumes the input to its end: the length
/// prefix must cover it exactly, and the body within must too.
pub proof fn lemma_extrinsic_consumes_all(m: MetadataModel, data: Seq<u8>)
    ensures
        spec_decode_extrinsic(m, data) matches Result::Ok((d, p)) ==> p == data.len(),
{
}

/// Decodes extrinsics against one metadata value.
#[derive(Debug)]
pub struct Decoder {
    pub metadata: Metadata,
}

/// The initial fuel for a top-level decode over `len` input bytes and
/// `rlen` registry entries.
fn initial_fuel(len: usize, rlen: usize) -> (r: u64)
    ensures
        r as nat == spec_initial_fuel(len as nat, rlen as nat),
{
    let l: u64 = if len > 0xffffffff {
        0xffffffff
    } else {
        len as u64
    };
    let r: u64 = if rlen > 0xffff {
        0xffff
    } else {
        rlen as u64
    };
    proof {
        assert((l as int + 2) * (r as int + 2) <= 0x100000100020002) by (nonlinear_arith)
            requires
                0 <= l as int <= 0xffffffff,
                0 <= r as int <= 0xffff,
        ;
    }
    (l + 2) * (r + 2)
}

/// Decode the signed extensions' payloads from index `i` on, appending each
/// name-value pair to `out`.
fn decode_extensions_into(metadata: &Metadata, i: usize, cursor: &mut ByteCursor, fuel: u64,
    out: &mut Vec<(String, Value)>) -> (r: Result<(), DecodeError>)
    requires
        old(cursor).wf(),
        i <= metadata.extrinsic.signed_extensions@.len(),
    ensures
        final(cursor).wf(),
        final(cursor).spec_data() == old(cursor).spec_data(),
        match spec_decode_extensions(
            metadata_model(*metadata),
            i as int,
            old(cursor).spec_data(),
            old(cursor).spec_pos(),
            fuel as nat,
        ) {
            Result::Ok((exts, p)) => r is Ok && pairs_model(final(out)@) == pairs_model(
                old(out)@,
            ) + exts && final(out)@.len() == old(out)@.len() + exts.len()
                && final(cursor).spec_pos() == p,
            Result::Err(e) => r matches Result::Err(e2) && e2 == e,
        },
    decreases metadata.extrinsic.signed_extensions@.len() - i,
{
    let ghost m = metadata_model(*metadata);
    let ghost out0 = out@;
    let exts = &metadata.extrinsic.signed_extensions;
    if i >= exts.len() {
        proof {
            assert(pairs_model(out0) + Seq::<(Seq<char>, ValueModel)>::empty() =~= pairs_model(
                out0,
            ));
        }
        return Result::Ok(());
    }
    proof {
        assert(m.extrinsic.signed_extensions[i as int] == crate::metadata::sigext_model(
            exts@[i as int],
        ));
    }
    let v = match decode_value(&metadata.types, exts[i].ty.id(), cursor, fuel) {
        Result::Ok(v) => v,
        Result::Err(e) => { return Result::Err(e); },
    };
    let name = exts[i].identifier.clone();
    proof {
        lemma_pairs_model_push(out@, (name, v));
    }
    let ghost vm = value_model(v);
    let ghost nm = name@;
    out.push((name, v));
    let ghost p1 = cursor.spec_pos();
    match decode_extensions_into(metadata, i + 1, cursor, fuel, out) {
        Result::Ok(u) => u,
        Result::Err(e) => { return Result::Err(e); },
    }
    proof {
        let data = old(cursor).spec_data();
        match spec_decode_extensions(m, i + 1, data, p1, fuel as nat) {
            Result::Ok((rest, p2)) => {
                assert(pairs_model(out@) == (pairs_model(out0) + seq![(nm, vm)]) + rest);
                assert((pairs_model(out0) + seq![(nm, vm)]) + rest =~= pairs_model(out0) + (
                seq![(nm, vm)] + rest));
            },
            Result::Err(e) => {
                // impossible: the call above returned successfully
                assert(false);
            },
        }
    }
    Result::Ok(())
}

/// Decode the call body — pallet byte, call byte, arguments — and check
/// that nothing trails it.
fn decode_call(metadata: &Metadata, cursor: &mut ByteCursor, fuel: u64,
    signature: Option<ExtrinsicSignature>) -> (r: Result<DecodedExtrinsic, DecodeError>)
    requires
        old(cursor).wf(),
    ensures
        final(cursor).wf(),
        final(cursor).spec_data() == old(cursor).spec_data(),
        match spec_decode_call(
            metadata_model(*metadata),
            old(cursor).spec_data(),
            old(cursor).spec_pos(),
            fuel as nat,
            match signature {
                Option::Some(s) => Option::Some(signature_model(s)),
                Option::None => Option::None,
            },
        ) {
            Result::Ok((d, p)) => r matches Result::Ok(x) && decoded_extrinsic_model(x) == d
                && final(cursor).spec_pos() == p,
            Result::Err(e) => r matches Result::Err(e2) && e2 == e,
        },
{
    let ghost m = metadata_model(*metadata);
    let pallet = match cursor.read_byte() {
        Result::Ok(b) => b,
        Result::Err(e) => { return Result::Err(e); },
    };
    let call = match cursor.read_byte() {
        Result::Ok(b) => b,
        Result::Err(e) => { return Result::Err(e); },
    };
    let (pname, vd) = match metadata.call_variant_by_enum_index(pallet, call) {
        Option::Some(nv) => nv,
        Option::None => {
            return Result::Err(DecodeError::CallNotFound { pallet, call });
        },
    };
    let mut args: Vec<Value> = Vec::new();
    proof {
        assert(values_model(Seq::<Value>::empty()) =~= Seq::<ValueModel>::empty());
    }
    match decode_fields_unnamed(&metadata.types, &vd.fields, 0, cursor, fuel, &mut args) {
        Result::Ok(u) => u,
        Result::Err(e) => { return Result::Err(e); },
    }
    let rem = cursor.remaining();
    if rem != 0 {
        return Result::Err(
            DecodeError::TrailingBytes { remaining: rem as u64, offset: cursor.offset() as u64 },
        );
    }
    let out = DecodedExtrinsic {
        pallet: pname.clone(),
        call: vd.name.clone(),
        arguments: args,
        signature,
    };
    Result::Ok(out)
}

impl Decoder {
    /// A decoder that decodes extrinsics against the given metadata.
    pub fn with_metadata(metadata: Metadata) -> (r: Decoder)
        ensures
            r.metadata == metadata,
    {
        Decoder { metadata }
    }

    /// The metadata this decoder works against.
    pub fn metadata(&self) -> (r: &Metadata)
        ensures
            r == &self.metadata,
    {
        &self.metadata
    }

    /// Decode one value of the given type from the cursor.
    pub fn decode(&self, ty: TypeId, cursor: &mut ByteCursor) -> (r: Result<Value, DecodeError>)
        requires
            old(cursor).wf(),
        ensures
            final(cursor).wf(),
            final(cursor).spec_data() == old(cursor).spec_data(),
            match spec_decode_value(
                registry_model(self.metadata.types),
                ty.spec_id(),
                old(cursor).spec_data(),
                old(cursor).spec_pos(),
                spec_initial_fuel(
                    (old(cursor).spec_data().len() - old(cursor).spec_pos()) as nat,
                    registry_model(self.metadata.types).len(),
                ),
            ) {
                Result::Ok((vm, p)) => r matches Result::Ok(v) && value_model(v) == vm && final(cursor).spec_pos() == p,
                Result::Err(e) => r matches Result::Err(e2) && e2 == e,
            },
    {
        let fuel = initial_fuel(cursor.remaining(), self.metadata.types.types.len());
        proof {
            assert(registry_model(self.metadata.types).len()
                == self.metadata.types.types@.len());
        }
        decode_value(&self.metadata.types, ty.id(), cursor, fuel)
    }

    /// Decode a length-prefixed extrinsic, as found in a block.
    pub fn decode_extrinsic(&self, bytes: &[u8]) -> (r: Result<DecodedExtrinsic, DecodeError>)
        ensures
            match spec_decode_extrinsic(metadata_model(self.metadata), bytes@) {
                Result::Ok((d, p)) => r matches Result::Ok(x) && decoded_extrinsic_model(x) == d,
                Result::Err(e) => r matches Result::Err(e2) && e2 == e,
            },
    {
        let mut cursor = ByteCursor::new(bytes);
        let n = match cursor.read_compact_u32() {
            Result::Ok(n) => n,
            Result::Err(e) => { return Result::Err(e); },
        };
        let rem = cursor.remaining();
        if (rem as u64) < n as u64 {
            return Result::Err(
                DecodeError::UnexpectedEof {
                    need: n as u64,
                    have: rem as u64,
                    offset: cursor.offset() as u64,
                },
            );
        }
        if (rem as u64) > n as u64 {
            return Result::Err(
                DecodeError::TrailingBytes {
                    remaining: rem as u64 - n as u64,
                    offset: cursor.offset() as u64 + n as u64,
                },
            );
        }
        self.decode_unwrapped_at(bytes, &mut cursor)
    }

    /// Decode an unwrapped extrinsic body.
    pub fn decode_unwrapped_extrinsic(&self, bytes: &[u8]) -> (r: Result<
        DecodedExtrinsic,
        DecodeError,
    >)
        ensures
            match spec_decode_unwrapped_at(metadata_model(self.metadata), bytes@, 0) {
                Result::Ok((d, p)) => r matches Result::Ok(x) && decoded_extrinsic_model(x) == d,
                Result::Err(e) => r matches Result::Err(e2) && e2 == e,
            },
    {
        let mut cursor = ByteCursor::new(bytes);
        self.decode_unwrapped_at(bytes, &mut cursor)
    }

    /// Decode an unwrapped extrinsic from the cursor's position to the end
    /// of the input.
    fn decode_unwrapped_at(&self, bytes: &[u8], cursor: &mut ByteCursor) -> (r: Result<
        DecodedExtrinsic,
        DecodeError,
    >)
        requires
            old(cursor).wf(),
            old(cursor).spec_data() == bytes@,
        ensures
            match spec_decode_unwrapped_at(
                metadata_model(self.metadata),
                bytes@,
                old(cursor).spec_pos(),
            ) {
                Result::Ok((d, p)) => r matches Result::Ok(x) && decoded_extrinsic_model(x) == d,
                Result::Err(e) => r matches Result::Err(e2) && e2 == e,
            },
    {
        let ghost m = metadata_model(self.metadata);
        let fuel = initial_fuel(bytes.len(), self.metadata.types.types.len());
        proof {
            assert(m.types.len() == self.metadata.types.types@.len());
        }
        let vb = match cursor.read_byte() {
            Result::Ok(b) => b,
            Result::Err(e) => { return Result::Err(e); },
        };
        let is_signed = (vb & 0x80) == 0x80;
        let ver = vb & 0x7f;
        if ver != self.metadata.extrinsic.version {
            return Result::Err(
                DecodeError::UnsupportedExtrinsicVersion {
                    got: ver,
                    expected: self.metadata.extrinsic.version,
                },
            );
        }
        if is_signed {
            let address = match decode_value(
                &self.metadata.types,
                self.metadata.extrinsic.address_ty.id(),
                cursor,
                fuel,
            ) {
                Result::Ok(v) => v,
                Result::Err(e) => { return Result::Err(e); },
            };
            let signature = match decode_value(
                &self.metadata.types,
                self.metadata.extrinsic.signature_ty.id(),
                cursor,
                fuel,
            ) {
                Result::Ok(v) => v,
                Result::Err(e) => { return Result::Err(e); },
            };
            let mut extensions: Vec<(String, Value)> = Vec::new();
            proof {
                assert(pairs_model(Seq::<(String, Value)>::empty()) =~= Seq::<
                    (Seq<char>, ValueModel),
                >::empty());
            }
            match decode_extensions_into(&self.metadata, 0, cursor, fuel, &mut extensions) {
                Result::Ok(u) => u,
                Result::Err(e) => { return Result::Err(e); },
            }
            let sig = ExtrinsicSignature { address, signature, extensions };
            decode_call(&self.metadata, cursor, fuel, Option::Some(sig))
        } else {
            decode_call(&self.metadata, cursor, fuel, Option::None)
        }
    }
}

} // verus!
