//! The compact (variable-length) integer encoding.
//!
//! The low two bits of the first byte select the mode: `0` packs the value in
//! the remaining six bits, `1` in the remaining fourteen bits of two bytes,
//! `2` in the remaining thirty bits of four bytes, and `3` announces
//! `(first_byte / 4) + 4` following little-endian value bytes.  Decoding is
//! liberal: longer, non-minimal encodings are accepted.
//!
//! [`spec_compact`] yields the value's little-endian bytes; [`spec_fits`]
//! and [`spec_fit_value`] cast them to a declared width, failing on
//! overflow.  [`spec_compact_encode_u32`] is the canonical encoding, and the
//! lemmas at the end pin down the length of each mode and the round trip.

use vstd::prelude::*;
use crate::error::DecodeError;
use crate::cursor::{ByteCursor, spec_read_byte, spec_read_bytes, spec_le_value, pow256,
    lemma_le_value_bound, le_value_prefix, lemma_pow256_le};

verus! {

/// The value bytes (little-endian) of a compact integer at `pos`, and the
/// position after it.
pub open spec fn spec_compact(data: Seq<u8>, pos: int) -> Result<(Seq<u8>, int), DecodeError> {
    match spec_read_byte(data, pos) {
        Result::Err(e) => Result::Err(e),
        Result::Ok((b0, p1)) => {
            let mode = b0 % 4;
            if mode == 0 {
                Result::Ok((seq![(b0 / 4) as u8], p1))
            } else if mode == 1 {
                match spec_read_byte(data, p1) {
                    Result::Err(e) => Result::Err(e),
                    Result::Ok((b1, p2)) => {
                        let v = (b0 + 256 * b1) / 4;
                        Result::Ok((seq![(v % 256) as u8, (v / 256) as u8], p2))
                    },
                }
            } else if mode == 2 {
                match spec_read_bytes(data, p1, 3) {
                    Result::Err(e) => Result::Err(e),
                    Result::Ok((bs, p2)) => {
                        let v = (b0 + 256 * bs[0] + 65536 * bs[1] + 16777216 * bs[2]) / 4;
                        Result::Ok(
                            (
                                seq![
                                    (v % 256) as u8,
                                    ((v / 256) % 256) as u8,
                                    ((v / 65536) % 256) as u8,
                                    ((v / 16777216) % 256) as u8,
                                ],
                                p2,
                            ),
                        )
                    },
                }
            } else {
                let nb = b0 / 4 + 4;
                match spec_read_bytes(data, p1, nb) {
                    Result::Err(e) => Result::Err(e),
                    Result::Ok((bs, p2)) => Result::Ok((bs, p2)),
                }
            }
        },
    }
}

/// True when the value bytes hold no set bit at or beyond byte `w`: the value
/// fits in `w` bytes.
pub open spec fn spec_fits(payload: Seq<u8>, w: int) -> bool {
    forall|i: int| w <= i < payload.len() ==> payload[i] == 0
}

/// The value of the first `w` bytes of the payload.
pub open spec fn spec_fit_value(payload: Seq<u8>, w: int) -> nat {
    if payload.len() <= w {
        spec_le_value(payload)
    } else {
        spec_le_value(payload.subrange(0, w))
    }
}

/// A compact integer at `pos`, required to fit 32 bits.
pub open spec fn spec_compact_u32(data: Seq<u8>, pos: int) -> Result<(u32, int), DecodeError> {
    match spec_compact(data, pos) {
        Result::Err(e) => Result::Err(e),
        Result::Ok((pl, p)) => if spec_fits(pl, 4) {
            Result::Ok((spec_fit_value(pl, 4) as u32, p))
        } else {
            Result::Err(
                DecodeError::CompactOverflow { declared_width: 4, value_bytes: pl.len() as u8 },
            )
        },
    }
}

/// The canonical compact encoding of a 32-bit value: one, two, four or five
/// bytes as the value grows.
pub open spec fn spec_compact_encode_u32(v: u32) -> Seq<u8> {
    if v < 64 {
        seq![(4 * v) as u8]
    } else if v < 16384 {
        let w = 4 * v + 1;
        seq![(w % 256) as u8, (w / 256) as u8]
    } else if v < 1073741824 {
        let w = 4 * v + 2;
        seq![(w % 256) as u8, ((w / 256) % 256) as u8, ((w / 65536) % 256) as u8, ((w
            / 16777216) % 256) as u8]
    } else {
        seq![3u8, (v % 256) as u8, ((v / 256) % 256) as u8, ((v / 65536) % 256) as u8, ((v
            / 16777216) % 256) as u8]
    }
}

impl<'a> ByteCursor<'a> {
    /// Read a compact integer of any size, returning its little-endian value
    /// bytes.
    #[verifier::rlimit(60)]
    pub fn read_compact_biguint(&mut self) -> (r: Result<Vec<u8>, DecodeError>)
        requires
            old(self).wf(),
        ensures
            final(self).wf(),
            final(self).spec_data() == old(self).spec_data(),
            match spec_compact(old(self).spec_data(), old(self).spec_pos()) {
                Result::Ok((pl, p)) => r matches Result::Ok(v) && v@ == pl && final(self).spec_pos() == p,
                Result::Err(e) => r == Result::<Vec<u8>, DecodeError>::Err(e),
            },
    {
        let b0 = match self.read_byte() {
            Result::Ok(b) => b,
            Result::Err(e) => { return Result::Err(e); },
        };
        let mode = b0 % 4;
        if mode == 0 {
            let mut out: Vec<u8> = Vec::new();
            out.push(b0 / 4);
            assert(out@ =~= seq![(b0 / 4) as u8]);
            Result::Ok(out)
        } else if mode == 1 {
            let b1 = match self.read_byte() {
                Result::Ok(b) => b,
                Result::Err(e) => { return Result::Err(e); },
            };
            let v: u16 = (b0 as u16 + 256 * (b1 as u16)) / 4;
            let mut out: Vec<u8> = Vec::new();
            out.push((v % 256) as u8);
            out.push((v / 256) as u8);
            assert(out@ =~= seq![((b0 + 256 * b1) / 4 % 256) as u8, ((b0 + 256 * b1) / 4 / 256) as u8]);
            Result::Ok(out)
        } else if mode == 2 {
            let bs = match self.read_fixed(3) {
                Result::Ok(b) => b,
                Result::Err(e) => { return Result::Err(e); },
            };
            assert(bs@.len() == 3);
            let v: u32 = (b0 as u32 + 256 * (bs[0] as u32) + 65536 * (bs[1] as u32) + 16777216
                * (bs[2] as u32)) / 4;
            let mut out: Vec<u8> = Vec::new();
            out.push((v % 256) as u8);
            out.push(((v / 256) % 256) as u8);
            out.push(((v / 65536) % 256) as u8);
            out.push(((v / 16777216) % 256) as u8);
            proof {
                let w = (b0 + 256 * bs@[0] + 65536 * bs@[1] + 16777216 * bs@[2]) / 4;
                assert(out@ =~= seq![
                    (w % 256) as u8,
                    ((w / 256) % 256) as u8,
                    ((w / 65536) % 256) as u8,
                    ((w / 16777216) % 256) as u8,
                ]);
            }
            Result::Ok(out)
        } else {
            let nb: usize = (b0 / 4) as usize + 4;
            match self.read_fixed(nb) {
                Result::Ok(bs) => Result::Ok(bs),
                Result::Err(e) => Result::Err(e),
            }
        }
    }

    /// Read a compact integer that must fit 32 bits.
    pub fn read_compact_u32(&mut self) -> (r: Result<u32, DecodeError>)
        requires
            old(self).wf(),
        ensures
            final(self).wf(),
            final(self).spec_data() == old(self).spec_data(),
            match spec_compact_u32(old(self).spec_data(), old(self).spec_pos()) {
                Result::Ok((v, p)) => r == Result::<u32, DecodeError>::Ok(v) && final(self).spec_pos() == p,
                Result::Err(e) => r == Result::<u32, DecodeError>::Err(e),
            },
    {
        let pl = match self.read_compact_biguint() {
            Result::Ok(pl) => pl,
            Result::Err(e) => { return Result::Err(e); },
        };
        if !compact_fits(&pl, 4) {
            return Result::Err(
                DecodeError::CompactOverflow { declared_width: 4, value_bytes: pl.len() as u8 },
            );
        }
        let v = le_value_prefix(&pl, 4);
        proof {
            if pl@.len() <= 4 {
                lemma_le_value_bound(pl@);
                reveal_with_fuel(pow256, 6);
            } else {
                lemma_le_value_bound(pl@.subrange(0, 4));
                reveal_with_fuel(pow256, 6);
            }
        }
        Result::Ok(v as u32)
    }
}

/// True when every value byte at or beyond index `w` is zero.
pub fn compact_fits(payload: &Vec<u8>, w: usize) -> (r: bool)
    ensures
        r == spec_fits(payload@, w as int),
{
    let mut i: usize = w;
    while i < payload.len()
        invariant
            w <= i,
            forall|j: int| w <= j < i ==> payload@[j] == 0,
        decreases payload.len() - i,
    {
        if payload[i] != 0 {
            return false;
        }
        i = i + 1;
    }
    true
}

/// The canonical compact encoding of a 32-bit value, as bytes.
pub fn compact_encode_u32(v: u32) -> (r: Vec<u8>)
    ensures
        r@ == spec_compact_encode_u32(v),
{
    let mut out: Vec<u8> = Vec::new();
    if v < 64 {
        out.push((4 * v) as u8);
        assert(out@ =~= spec_compact_encode_u32(v));
    } else if v < 16384 {
        let w: u32 = 4 * v + 1;
        out.push((w % 256) as u8);
        out.push((w / 256) as u8);
        assert(out@ =~= spec_compact_encode_u32(v));
    } else if v < 1073741824 {
        let w: u32 = 4 * v + 2;
        out.push((w % 256) as u8);
        out.push(((w / 256) % 256) as u8);
        out.push(((w / 65536) % 256) as u8);
        out.push(((w / 16777216) % 256) as u8);
        assert(out@ =~= spec_compact_encode_u32(v));
    } else {
        out.push(3u8);
        out.push((v % 256) as u8);
        out.push(((v / 256) % 256) as u8);
        out.push(((v / 65536) % 256) as u8);
        out.push(((v / 16777216) % 256) as u8);
        assert(out@ =~= spec_compact_encode_u32(v));
    }
    out
}

/// Taking a remainder by 4 commutes with first taking one by 256.
proof fn lemma_mod256_mod4(w: int)
    requires
        0 <= w,
    ensures
        (w % 256) % 4 == w % 4,
{
    vstd::arithmetic::div_mod::lemma_fundamental_div_mod(w, 256);
    assert((w - 256 * (w / 256)) % 4 == w % 4) by (nonlinear_arith);
}

/// A value below `2^32` is recomposed exactly from its four little-endian
/// bytes.
proof fn lemma_recompose4(w: int)
    requires
        0 <= w < 0x100000000,
    ensures
        w % 256 + 256 * ((w / 256) % 256) + 65536 * ((w / 65536) % 256) + 16777216 * ((w
            / 16777216) % 256) == w,
        w / 16777216 < 256,
{
    let q1 = w / 256;
    let r1 = w % 256;
    let q2 = q1 / 256;
    let r2 = q1 % 256;
    let q3 = q2 / 256;
    let r3 = q2 % 256;
    vstd::arithmetic::div_mod::lemma_fundamental_div_mod(w, 256);
    vstd::arithmetic::div_mod::lemma_fundamental_div_mod(q1, 256);
    vstd::arithmetic::div_mod::lemma_fundamental_div_mod(q2, 256);
    vstd::arithmetic::div_mod::lemma_div_denominator(w, 256, 256);
    vstd::arithmetic::div_mod::lemma_div_denominator(w, 65536, 256);
    vstd::arithmetic::div_mod::lemma_div_denominator(w, 256, 65536);
    assert(q2 == w / 65536);
    assert(q3 == w / 16777216);
    assert(q3 < 256 && q3 % 256 == q3);
    assert(r1 + 256 * r2 + 65536 * r3 + 16777216 * q3 == w) by (nonlinear_arith)
        requires
            w == 256 * q1 + r1,
            q1 == 256 * q2 + r2,
            q2 == 256 * q3 + r3,
    ;
}

/// A freshly encoded 32-bit compact uses the one-, two-, four- or five-byte
/// form exactly as the value sits in `[0, 2^6)`, `[2^6, 2^14)`,
/// `[2^14, 2^30)` or `[2^30, 2^32)`.
pub proof fn lemma_compact_encode_len(v: u32)
    ensures
        v < 64 ==> spec_compact_encode_u32(v).len() == 1,
        64 <= v < 16384 ==> spec_compact_encode_u32(v).len() == 2,
        16384 <= v < 1073741824 ==> spec_compact_encode_u32(v).len() == 4,
        1073741824 <= v ==> spec_compact_encode_u32(v).len() == 5,
{
}

/// Decoding a freshly encoded 32-bit compact recovers the value and consumes
/// exactly the encoding.
pub proof fn lemma_compact_round_trip(v: u32, data: Seq<u8>, pos: int)
    requires
        0 <= pos,
        pos + spec_compact_encode_u32(v).len() <= data.len(),
        data.subrange(pos, pos + spec_compact_encode_u32(v).len() as int)
            == spec_compact_encode_u32(v),
    ensures
        spec_compact_u32(data, pos) == Result::<(u32, int), DecodeError>::Ok(
            (v, pos + spec_compact_encode_u32(v).len()),
        ),
{
    let enc = spec_compact_encode_u32(v);
    assert(forall|i: int| 0 <= i < enc.len() ==> data[pos + i] == #[trigger] enc[i]) by {
        assert(forall|i: int| 0 <= i < enc.len() ==> #[trigger] enc[i] == data.subrange(
            pos,
            pos + enc.len() as int,
        )[i]);
    }
    assert(spec_le_value(Seq::<u8>::empty()) == 0);
    if v < 64 {
        let b0 = data[pos];
        assert(b0 == enc[0]);
        assert(b0 == (4 * v) as u8);
        assert(b0 == 4 * (v as int)) by (nonlinear_arith)
            requires
                b0 == (4 * v) as u8,
                v < 64,
        ;
        assert(b0 % 4 == 0 && b0 / 4 == v) by (nonlinear_arith)
            requires
                b0 == 4 * (v as int),
        ;
        let pl = seq![(b0 / 4) as u8];
        assert(pl.subrange(1, 1) =~= Seq::<u8>::empty());
        assert(spec_le_value(pl) == v);
        assert(spec_fits(pl, 4));
    } else if v < 16384 {
        let w = 4 * (v as int) + 1;
        let b0 = data[pos];
        let b1 = data[pos + 1];
        assert(b0 == enc[0] && b1 == enc[1]);
        assert(b0 == (w % 256) as u8 && b1 == (w / 256) as u8);
        assert(0 <= w % 256 < 256 && 0 <= w / 256 < 256);
        lemma_mod256_mod4(w);
        assert(w % 4 == 1) by (nonlinear_arith)
            requires
                w == 4 * (v as int) + 1,
        ;
        vstd::arithmetic::div_mod::lemma_fundamental_div_mod(w, 256);
        assert(b0 + 256 * b1 == w);
        assert(w / 4 == v) by (nonlinear_arith)
            requires
                w == 4 * (v as int) + 1,
        ;
        let u = (b0 + 256 * b1) / 4;
        assert(u == v);
        let pl = seq![(u % 256) as u8, (u / 256) as u8];
        vstd::arithmetic::div_mod::lemma_fundamental_div_mod(u, 256);
        assert(pl.subrange(1, 2).subrange(1, 1) =~= Seq::<u8>::empty());
        assert(pl.subrange(1, 2)[0] == pl[1]);
        assert(spec_le_value(pl.subrange(1, 2)) == u / 256);
        assert(spec_le_value(pl) == u);
        assert(spec_fits(pl, 4));
    } else if v < 1073741824 {
        let w = 4 * (v as int) + 2;
        assert(w < 0x100000000);
        let b0 = data[pos];
        let b1 = data[pos + 1];
        let b2 = data[pos + 2];
        let b3 = data[pos + 3];
        assert(b0 == enc[0] && b1 == enc[1] && b2 == enc[2] && b3 == enc[3]);
        lemma_recompose4(w);
        assert(b0 == (w % 256) as u8 && b1 == ((w / 256) % 256) as u8 && b2 == ((w / 65536)
            % 256) as u8 && b3 == ((w / 16777216) % 256) as u8);
        lemma_mod256_mod4(w);
        assert(w % 4 == 2) by (nonlinear_arith)
            requires
                w == 4 * (v as int) + 2,
        ;
        assert(data.subrange(pos + 1, pos + 4) =~= seq![b1, b2, b3]);
        let rd = spec_read_bytes(data, pos + 1, 3);
        assert(rd matches Result::Ok((bs, p)) && bs == seq![b1, b2, b3] && p == pos + 4);
        assert(b0 + 256 * b1 + 65536 * b2 + 16777216 * b3 == w);
        assert(w / 4 == v) by (nonlinear_arith)
            requires
                w == 4 * (v as int) + 2,
        ;
        let u = (b0 + 256 * b1 + 65536 * b2 + 16777216 * b3) / 4;
        assert(u == v);
        lemma_recompose4(u);
        let pl = seq![(u % 256) as u8, ((u / 256) % 256) as u8, ((u / 65536) % 256) as u8, ((u
            / 16777216) % 256) as u8];
        lemma_le4(pl);
        assert(spec_le_value(pl) == u % 256 + 256 * ((u / 256) % 256) + 65536 * ((u / 65536)
            % 256) + 16777216 * ((u / 16777216) % 256));
        assert(spec_le_value(pl) == u);
        assert(spec_fits(pl, 4));
    } else {
        let b0 = data[pos];
        assert(b0 == enc[0]);
        assert(b0 == 3);
        assert(b0 % 4 == 3 && b0 / 4 == 0);
        let w = v as int;
        lemma_recompose4(w);
        let b1 = data[pos + 1];
        let b2 = data[pos + 2];
        let b3 = data[pos + 3];
        let b4 = data[pos + 4];
        assert(b1 == enc[1] && b2 == enc[2] && b3 == enc[3] && b4 == enc[4]);
        assert(b1 == (w % 256) as u8 && b2 == ((w / 256) % 256) as u8 && b3 == ((w / 65536)
            % 256) as u8 && b4 == ((w / 16777216) % 256) as u8);
        assert(data.subrange(pos + 1, pos + 5) =~= seq![b1, b2, b3, b4]);
        let rd = spec_read_bytes(data, pos + 1, 4);
        assert(rd matches Result::Ok((bs, p)) && bs == seq![b1, b2, b3, b4] && p == pos + 5);
        let pl = seq![b1, b2, b3, b4];
        lemma_le4(pl);
        assert(spec_le_value(pl) == w);
        assert(spec_fits(pl, 4));
    }
}

/// The value of a four-byte little-endian sequence, written out.
proof fn lemma_le4(pl: Seq<u8>)
    requires
        pl.len() == 4,
    ensures
        spec_le_value(pl) == pl[0] + 256 * pl[1] + 65536 * pl[2] + 16777216 * pl[3],
{
    assert(spec_le_value(Seq::<u8>::empty()) == 0);
    let t1 = pl.subrange(1, 4);
    let t2 = t1.subrange(1, t1.len() as int);
    let t3 = t2.subrange(1, t2.len() as int);
    assert(t2 =~= pl.subrange(2, 4));
    assert(t3 =~= pl.subrange(3, 4));
    assert(t3.subrange(1, t3.len() as int) =~= Seq::<u8>::empty());
    assert(t1[0] == pl[1] && t2[0] == pl[2] && t3[0] == pl[3]);
    assert(spec_le_value(t3) == pl[3]);
    assert(spec_le_value(t2) == pl[2] + 256 * spec_le_value(t3));
    assert(spec_le_value(t1) == pl[1] + 256 * spec_le_value(t2));
    assert(spec_le_value(pl) == pl[0] + 256 * spec_le_value(t1));
}

/// Any 32-bit value decodes from the five-byte big-integer form as well: the
/// decoder accepts encodings wider than the canonical one.
pub proof fn lemma_compact_accepts_wide(v: u32, data: Seq<u8>, pos: int)
    requires
        0 <= pos,
        pos + 5 <= data.len(),
        data[pos] == 3u8,
        data[pos + 1] == (v as int % 256) as u8,
        data[pos + 2] == ((v as int / 256) % 256) as u8,
        data[pos + 3] == ((v as int / 65536) % 256) as u8,
        data[pos + 4] == ((v as int / 16777216) % 256) as u8,
    ensures
        spec_compact_u32(data, pos) == Result::<(u32, int), DecodeError>::Ok((v, pos + 5)),
{
    let b0 = data[pos];
    assert(b0 % 4 == 3 && b0 / 4 == 0);
    let w = v as int;
    lemma_recompose4(w);
    let b1 = data[pos + 1];
    let b2 = data[pos + 2];
    let b3 = data[pos + 3];
    let b4 = data[pos + 4];
    assert(data.subrange(pos + 1, pos + 5) =~= seq![b1, b2, b3, b4]);
    let rd = spec_read_bytes(data, pos + 1, 4);
    assert(rd matches Result::Ok((bs, p)) && bs == seq![b1, b2, b3, b4] && p == pos + 5);
    let pl = seq![b1, b2, b3, b4];
    lemma_le4(pl);
    assert(spec_le_value(pl) == w);
    assert(spec_fits(pl, 4));
}


} // verus!
